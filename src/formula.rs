use vstd::prelude::*;

use crate::character::Character;
use crate::common::{Formula, Name};
use crate::encyclopedia::StatBlockEncyclopedia;
use crate::stats::{DerivedStat, Stat};
use crate::text::{
    all_digits, dashes_to_spaces, digit_value, digits_value, lemma_split_on_concat, lemma_split_on_whole, parse_i32, parse_stat,
    replace_dashes, split_on, split_on_char, views,
};

verus! {

/// Why a formula has no value.
#[derive(Debug, Clone, Copy, PartialEq, Eq, Structural)]
pub enum FormulaError {
    /// An operator is missing an operand: the formula ran out of tokens.
    OutOfTokens,
    /// A term is neither a number nor a reference that this kind of formula understands.
    UnknownToken,
    /// A term refers to the actor, and there is none.
    MissingActor,
    /// A term refers to a base statistic or an item attribute that the character lacks.
    MissingStat,
    /// A division by zero.
    DivideByZero,
}

/// `x` saturated to the range of `i32`.
pub open spec fn clamp_i32(x: int) -> i32 {
    if x > i32::MAX {
        i32::MAX
    } else if x < i32::MIN {
        i32::MIN
    } else {
        x as i32
    }
}

pub open spec fn abs_int(x: int) -> int {
    if x < 0 {
        -x
    } else {
        x
    }
}

/// Division rounding toward zero.
pub open spec fn trunc_div(x: int, d: int) -> int {
    let q = abs_int(x) / abs_int(d);
    if (x < 0) != (d < 0) {
        -q
    } else {
        q
    }
}

pub open spec fn is_operator(t: Seq<char>) -> bool {
    t.len() == 1 && (t[0] == '+' || t[0] == '-' || t[0] == '*' || t[0] == '/')
}

/// The saturating result of a binary operator.
pub open spec fn op_result(op: char, a: i32, b: i32) -> Result<i32, FormulaError> {
    if op == '+' {
        Ok(clamp_i32(a + b))
    } else if op == '-' {
        Ok(clamp_i32(a - b))
    } else if op == '*' {
        Ok(clamp_i32(a * b))
    } else if b == 0 {
        Err(FormulaError::DivideByZero)
    } else {
        Ok(clamp_i32(trunc_div(a as int, b as int)))
    }
}

/// Prefix evaluation from token `pos`: an operator takes the next two expressions as its left
/// and right operands, anything else is a term whose value is `vals[pos]`. Gives the value and
/// the position after the expression. `fuel` bounds the depth; the number of tokens is always
/// enough.
pub open spec fn eval_from(
    vals: Seq<Result<i32, FormulaError>>,
    toks: Seq<Seq<char>>,
    pos: int,
    fuel: nat,
) -> Result<(i32, int), FormulaError>
    decreases fuel,
{
    if fuel == 0 || pos < 0 || pos >= toks.len() {
        Err(FormulaError::OutOfTokens)
    } else if is_operator(toks[pos]) {
        match eval_from(vals, toks, pos + 1, (fuel - 1) as nat) {
            Err(e) => Err(e),
            Ok((a, p1)) => match eval_from(vals, toks, p1, (fuel - 1) as nat) {
                Err(e) => Err(e),
                Ok((b, p2)) => match op_result(toks[pos][0], a, b) {
                    Ok(v) => Ok((v, p2)),
                    Err(e) => Err(e),
                },
            },
        }
    } else {
        match vals[pos] {
            Ok(v) => Ok((v, pos + 1)),
            Err(e) => Err(e),
        }
    }
}

/// The value of formula `f` whose terms mean what `terms` says; tokens after the first complete
/// expression are ignored.
pub open spec fn run_formula(terms: spec_fn(Seq<char>) -> Result<i32, FormulaError>, f: Seq<char>) -> Result<
    i32,
    FormulaError,
> {
    let toks = split_on(f, ' ');
    match eval_from(toks.map_values(terms), toks, 0, toks.len()) {
        Ok((v, _)) => Ok(v),
        Err(e) => Err(e),
    }
}

/// The attribute of the item in an equipment slot: the Weapon and Armor slots give 10.
pub open spec fn item_attr(slot: Seq<char>, attr: Seq<char>) -> Option<i32> {
    if slot == "Weapon"@ || slot == "Armor"@ {
        Some(10)
    } else {
        None
    }
}

/// A term of a derived-stat formula: a number, or `slot.attr` where an empty slot stands for the
/// stat being derived and an empty attribute for the base stat itself.
pub open spec fn stat_term_value(c: Character, base: Seq<char>, t: Seq<char>) -> Result<i32, FormulaError> {
    match parse_i32(t) {
        Some(v) => Ok(v),
        None => {
            let f = split_on(t, '.');
            if f.len() < 2 {
                Err(FormulaError::UnknownToken)
            } else {
                match item_attr(f[0], f[1]) {
                    Some(v) => Ok(v),
                    None => {
                        let name = dashes_to_spaces(
                            if f[0].len() == 0 {
                                base
                            } else {
                                f[0]
                            },
                        );
                        if f[1].len() == 0 {
                            match c.base_stats.lookup(name) {
                                Some(v) => Ok(v),
                                None => Err(FormulaError::MissingStat),
                            }
                        } else if f[1] == "AddMod"@ {
                            Ok(0)
                        } else if f[1] == "MultMod"@ {
                            Ok(1)
                        } else if f[1] == "Power"@ {
                            match item_attr(name, "Power"@) {
                                Some(v) => Ok(v),
                                None => Err(FormulaError::MissingStat),
                            }
                        } else {
                            Err(FormulaError::UnknownToken)
                        }
                    },
                }
            }
        },
    }
}

/// The value of derived-stat formula `f` for character `c`, deriving the stat `base`.
pub open spec fn stat_formula_value(c: Character, base: Seq<char>, f: Seq<char>) -> Result<i32, FormulaError> {
    run_formula(|t: Seq<char>| stat_term_value(c, base, t), f)
}

/// The formula of `c`'s derived stat `name`, from the stat block that `c` refers to.
pub open spec fn stat_formula(c: Character, name: Seq<char>, sb: StatBlockEncyclopedia) -> Option<String> {
    if sb.records().contains_key(c.stats) {
        sb.records()[c.stats].stats.lookup(name)
    } else {
        None
    }
}

/// `c`'s derived stat `name`, or `default` where its stat block has no formula for it.
pub open spec fn stat_value(c: Character, name: Seq<char>, default: i32, sb: StatBlockEncyclopedia) -> Result<
    i32,
    FormulaError,
> {
    match stat_formula(c, name, sb) {
        Some(f) => stat_formula_value(c, name, f@),
        None => Ok(default),
    }
}

/// The value a stat takes in a hit formula when it is not derived: 1 for Level, 0 otherwise.
pub open spec fn stat_default(name: Seq<char>) -> i32 {
    if name == "Level"@ {
        1
    } else {
        0
    }
}

/// A term of a hit formula: a number, `^Stat` on the actor or `$Stat` on the target, with dashes
/// in the stat name standing for spaces.
pub open spec fn hit_term_value(
    actor: Option<Character>,
    target: Character,
    sb: StatBlockEncyclopedia,
    t: Seq<char>,
) -> Result<i32, FormulaError> {
    match parse_i32(t) {
        Some(v) => Ok(v),
        None => {
            let name = dashes_to_spaces(t.drop_first());
            if t.len() > 1 && t[0] == '^' {
                match actor {
                    Some(a) => stat_value(a, name, stat_default(name), sb),
                    None => Err(FormulaError::MissingActor),
                }
            } else if t.len() > 1 && t[0] == '$' {
                stat_value(target, name, stat_default(name), sb)
            } else {
                Err(FormulaError::UnknownToken)
            }
        },
    }
}

pub open spec fn opt_char(c: Option<&Character>) -> Option<Character> {
    match c {
        Some(a) => Some(*a),
        None => None,
    }
}

/// The value of hit formula `f` with the given actor and target.
pub open spec fn hit_formula_value(
    actor: Option<Character>,
    target: Character,
    sb: StatBlockEncyclopedia,
    f: Seq<char>,
) -> Result<i32, FormulaError> {
    run_formula(|t: Seq<char>| hit_term_value(actor, target, sb, t), f)
}

fn clamp_to_i32(x: i64) -> (r: i32)
    ensures
        r == clamp_i32(x as int),
{
    if x > i32::MAX as i64 {
        i32::MAX
    } else if x < i32::MIN as i64 {
        i32::MIN
    } else {
        x as i32
    }
}

fn apply_op(op: char, a: i32, b: i32) -> (r: Result<i32, FormulaError>)
    ensures
        r == op_result(op, a, b),
{
    if op == '+' {
        Ok(clamp_to_i32(a as i64 + b as i64))
    } else if op == '-' {
        Ok(clamp_to_i32(a as i64 - b as i64))
    } else if op == '*' {
        proof {
            assert(-2147483648 * 2147483648 <= a * b <= 2147483648 * 2147483648) by (nonlinear_arith)
                requires
                    -2147483648 <= a <= 2147483647,
                    -2147483648 <= b <= 2147483647,
            ;
        }
        Ok(clamp_to_i32(a as i64 * b as i64))
    } else if b == 0 {
        Err(FormulaError::DivideByZero)
    } else {
        let ua: u64 = if a < 0 { (-(a as i64)) as u64 } else { a as u64 };
        let ub: u64 = if b < 0 { (-(b as i64)) as u64 } else { b as u64 };
        let q = ua / ub;
        proof {
            assert(q <= ua) by (nonlinear_arith)
                requires
                    q == ua / ub,
                    ub >= 1,
            ;
        }
        let v: i64 = if (a < 0) != (b < 0) { -(q as i64) } else { q as i64 };
        Ok(clamp_to_i32(v))
    }
}

/// The operator that `t` is, if it is one.
fn operator_of(t: &String) -> (r: Option<char>)
    ensures
        match r {
            Some(op) => is_operator(t@) && op == t@[0],
            None => !is_operator(t@),
        },
{
    if t.as_str().unicode_len() != 1 {
        return None;
    }
    let c = t.as_str().get_char(0);
    if c == '+' || c == '-' || c == '*' || c == '/' {
        Some(c)
    } else {
        None
    }
}

fn eval_tokens(vals: &Vec<Result<i32, FormulaError>>, toks: &Vec<String>, pos: usize, fuel: usize) -> (res:
    Result<(i32, usize), FormulaError>)
    requires
        vals@.len() == toks@.len(),
    ensures
        match res {
            Ok((v, p)) => eval_from(vals@, views(toks@), pos as int, fuel as nat) == Ok::<(i32, int), FormulaError>((v, p as int)),
            Err(e) => eval_from(vals@, views(toks@), pos as int, fuel as nat) == Err::<(i32, int), FormulaError>(e),
        },
    decreases fuel,
{
    if fuel == 0 || pos >= toks.len() {
        return Err(FormulaError::OutOfTokens);
    }
    match operator_of(&toks[pos]) {
        Some(op) => {
            let a = match eval_tokens(vals, toks, pos + 1, fuel - 1) {
                Ok(x) => x,
                Err(e) => {
                    return Err(e);
                },
            };
            let b = match eval_tokens(vals, toks, a.1, fuel - 1) {
                Ok(x) => x,
                Err(e) => {
                    return Err(e);
                },
            };
            match apply_op(op, a.0, b.0) {
                Ok(v) => Ok((v, b.1)),
                Err(e) => Err(e),
            }
        },
        None => match vals[pos] {
            Ok(v) => Ok((v, pos + 1)),
            Err(e) => Err(e),
        },
    }
}

/// Runs the prefix evaluation over all of `toks`, with `vals` the value of each token as a term.
fn run_tokens(vals: &Vec<Result<i32, FormulaError>>, toks: &Vec<String>) -> (res: Result<i32, FormulaError>)
    requires
        vals@.len() == toks@.len(),
    ensures
        res == match eval_from(vals@, views(toks@), 0, toks@.len()) {
            Ok((v, _)) => Ok::<i32, FormulaError>(v),
            Err(e) => Err(e),
        },
{
    match eval_tokens(vals, toks, 0, toks.len()) {
        Ok((v, _)) => Ok(v),
        Err(e) => Err(e),
    }
}

/// Resolves one term of a derived-stat formula.
pub fn eval_stat_term(c: &Character, base: &String, t: &String) -> (r: Result<i32, FormulaError>)
    ensures
        r == stat_term_value(*c, base@, t@),
{
    if let Some(v) = parse_stat(t) {
        return Ok(v);
    }
    let f = split_on_char(t, '.');
    if f.len() < 2 {
        return Err(FormulaError::UnknownToken);
    }
    if let Some(v) = c.get_item_attr(f[0].clone(), f[1].clone()) {
        return Ok(v);
    }
    let slot_or_stat = if f[0].as_str().unicode_len() == 0 { base } else { &f[0] };
    let name = replace_dashes(slot_or_stat);
    if f[1].as_str().unicode_len() == 0 {
        return match c.get_base_stat(name) {
            Some(v) => Ok(*v),
            None => Err(FormulaError::MissingStat),
        };
    }
    if f[1] == String::from_str("AddMod") {
        Ok(c.sum_add_mods(name))
    } else if f[1] == String::from_str("MultMod") {
        Ok(c.sum_mult_mods(name))
    } else if f[1] == String::from_str("Power") {
        match c.get_item_attr(name, String::from_str("Power")) {
            Some(v) => Ok(v),
            None => Err(FormulaError::MissingStat),
        }
    } else {
        Err(FormulaError::UnknownToken)
    }
}

/// Evaluates the derived-stat formula `s` for character `c`, deriving the stat `stat_name`, or
/// tells why it has no value.
pub fn try_eval_stat(stat_name: Name, s: &DerivedStat, c: &Character) -> (r: Result<Stat, FormulaError>)
    ensures
        r == stat_formula_value(*c, stat_name@, s@),
{
    let toks = split_on_char(s, ' ');
    let mut vals: Vec<Result<i32, FormulaError>> = Vec::new();
    let mut i: usize = 0;
    while i < toks.len()
        invariant
            i <= toks@.len(),
            vals@.len() == i,
            forall|j: int| 0 <= j < i ==> #[trigger] vals@[j] == stat_term_value(*c, stat_name@, toks@[j]@),
        decreases toks@.len() - i,
    {
        vals.push(eval_stat_term(c, &stat_name, &toks[i]));
        i = i + 1;
    }
    proof {
        assert(vals@ =~= views(toks@).map_values(|t: Seq<char>| stat_term_value(*c, stat_name@, t)));
    }
    run_tokens(&vals, &toks)
}

/// The value of the derived-stat formula `s` for character `c`, deriving the stat `stat_name`. A
/// malformed formula is a content error: it is left out here, and `try_eval_stat` reports it.
pub fn eval_stat(stat_name: Name, s: &DerivedStat, c: &Character) -> (r: Stat)
    requires
        stat_formula_value(*c, stat_name@, s@) is Ok,
    ensures
        stat_formula_value(*c, stat_name@, s@) == Ok::<i32, FormulaError>(r),
{
    match try_eval_stat(stat_name, s, c) {
        Ok(v) => v,
        Err(_) => {
            assert(false);
            0
        },
    }
}

/// Resolves one term of a hit formula.
fn hit_term(actor: Option<&Character>, target: &Character, statblocks: &StatBlockEncyclopedia, t: &String) -> (r:
    Result<i32, FormulaError>)
    ensures
        r == hit_term_value(opt_char(actor), *target, *statblocks, t@),
{
    if let Some(v) = parse_stat(t) {
        return Ok(v);
    }
    let n = t.as_str().unicode_len();
    if n < 2 {
        return Err(FormulaError::UnknownToken);
    }
    let sigil = t.as_str().get_char(0);
    let rest = String::from_str(t.as_str().substring_char(1, n));
    proof {
        assert(rest@ =~= t@.drop_first());
    }
    let name = replace_dashes(&rest);
    let default: i32 = if name == String::from_str("Level") { 1 } else { 0 };
    if sigil == '^' {
        match actor {
            Some(a) => a.get_stat_val(name, default, statblocks),
            None => Err(FormulaError::MissingActor),
        }
    } else if sigil == '$' {
        target.get_stat_val(name, default, statblocks)
    } else {
        Err(FormulaError::UnknownToken)
    }
}

/// Evaluates the hit formula `f` with `^` terms on the actor and `$` terms on the target, or tells
/// why it has no value.
pub fn try_eval_hit(f: &Formula, actor: Option<&Character>, target: &Character, statblocks: &StatBlockEncyclopedia) -> (r:
    Result<Stat, FormulaError>)
    ensures
        r == hit_formula_value(opt_char(actor), *target, *statblocks, f@),
{
    let toks = split_on_char(f, ' ');
    let mut vals: Vec<Result<i32, FormulaError>> = Vec::new();
    let mut i: usize = 0;
    while i < toks.len()
        invariant
            i <= toks@.len(),
            vals@.len() == i,
            forall|j: int| 0 <= j < i ==> #[trigger] vals@[j] == hit_term_value(opt_char(actor), *target, *statblocks, toks@[j]@),
        decreases toks@.len() - i,
    {
        vals.push(hit_term(actor, target, statblocks, &toks[i]));
        i = i + 1;
    }
    proof {
        assert(vals@ =~= views(toks@).map_values(|t: Seq<char>| hit_term_value(opt_char(actor), *target, *statblocks, t)));
    }
    run_tokens(&vals, &toks)
}

} // verus!

verus! {

/// The hit formula "+ 1 - ^Offense / $Offense 2", with one character as both actor and target,
/// is one plus its Offense minus half its Offense (rounded toward zero), whenever its Offense
/// can be derived.
pub proof fn lemma_offense_formula(c: Character, sb: StatBlockEncyclopedia)
    requires
        stat_value(c, "Offense"@, 0, sb) is Ok,
    ensures
        ({
            let o = stat_value(c, "Offense"@, 0, sb)->Ok_0 as int;
            hit_formula_value(Some(c), c, sb, "+ 1 - ^Offense / $Offense 2"@) == Ok::<i32, FormulaError>(
                (1 + o - trunc_div(o, 2)) as i32,
            )
        }),
{
    reveal_strlit("+ 1 - ^Offense / $Offense 2");
    reveal_strlit("Offense");
    reveal_strlit("Level");
    let plus = seq!['+'];
    let one = seq!['1'];
    let minus = seq!['-'];
    let off = "Offense"@;
    let actor_off = seq!['^'] + off;
    let slash = seq!['/'];
    let target_off = seq!['$'] + off;
    let two = seq!['2'];
    let f = "+ 1 - ^Offense / $Offense 2"@;
    let sp = seq![' '];
    assert(f =~= plus + sp + (one + sp + (minus + sp + (actor_off + sp + (slash + sp + (target_off + sp + two))))));
    lemma_split_on_concat(target_off, two, ' ');
    lemma_split_on_concat(slash, target_off + sp + two, ' ');
    lemma_split_on_concat(actor_off, slash + sp + (target_off + sp + two), ' ');
    lemma_split_on_concat(minus, actor_off + sp + (slash + sp + (target_off + sp + two)), ' ');
    lemma_split_on_concat(one, minus + sp + (actor_off + sp + (slash + sp + (target_off + sp + two))), ' ');
    lemma_split_on_concat(
        plus,
        one + sp + (minus + sp + (actor_off + sp + (slash + sp + (target_off + sp + two)))),
        ' ',
    );
    lemma_split_on_whole(plus, ' ');
    lemma_split_on_whole(one, ' ');
    lemma_split_on_whole(minus, ' ');
    lemma_split_on_whole(actor_off, ' ');
    lemma_split_on_whole(slash, ' ');
    lemma_split_on_whole(target_off, ' ');
    lemma_split_on_whole(two, ' ');
    let toks = split_on(f, ' ');
    assert(toks =~= seq![plus, one, minus, actor_off, slash, target_off, two]);
    let terms = |t: Seq<char>| hit_term_value(Some(c), c, sb, t);
    let vals = toks.map_values(terms);
    let o = stat_value(c, "Offense"@, 0, sb)->Ok_0;
    // the terms
    assert(digits_value(Seq::<char>::empty()) == 0);
    assert(one.drop_last() =~= Seq::<char>::empty());
    assert(digit_value('1') == 1);
    assert(digits_value(one) == 1);
    assert(vals[1] == Ok::<i32, FormulaError>(1));
    assert(two.drop_last() =~= Seq::<char>::empty());
    assert(digit_value('2') == 2);
    assert(digits_value(two) == 2);
    assert(vals[6] == Ok::<i32, FormulaError>(2));
    assert(actor_off.drop_first() =~= off);
    assert(dashes_to_spaces(off) =~= off);
    assert(!all_digits(actor_off));
    assert(parse_i32(actor_off) is None);
    assert(stat_default(off) == 0);
    assert(vals[3] == Ok::<i32, FormulaError>(o));
    assert(target_off.drop_first() =~= off);
    assert(!all_digits(target_off));
    assert(parse_i32(target_off) is None);
    assert(vals[5] == Ok::<i32, FormulaError>(o));
    // the operators
    assert(is_operator(toks[0]) && is_operator(toks[2]) && is_operator(toks[4]));
    assert(!is_operator(toks[1]) && !is_operator(toks[3]) && !is_operator(toks[5]) && !is_operator(toks[6]));
    let q = trunc_div(o as int, 2);
    assert(eval_from(vals, toks, 6, 4) == Ok::<(i32, int), FormulaError>((2, 7)));
    assert(eval_from(vals, toks, 5, 4) == Ok::<(i32, int), FormulaError>((o, 6)));
    assert(-1073741824 <= q <= 1073741823) by (nonlinear_arith)
        requires
            q == trunc_div(o as int, 2),
            -2147483648 <= o <= 2147483647,
    {
    }
    assert(eval_from(vals, toks, 4, 5) == Ok::<(i32, int), FormulaError>((q as i32, 7)));
    assert(eval_from(vals, toks, 3, 5) == Ok::<(i32, int), FormulaError>((o, 4)));
    assert(-1073741824 <= o - q <= 1073741824) by (nonlinear_arith)
        requires
            q == trunc_div(o as int, 2),
            -2147483648 <= o <= 2147483647,
    {
    }
    assert(eval_from(vals, toks, 2, 6) == Ok::<(i32, int), FormulaError>(((o - q) as i32, 7)));
    assert(eval_from(vals, toks, 1, 6) == Ok::<(i32, int), FormulaError>((1, 2)));
    assert(eval_from(vals, toks, 0, 7) == Ok::<(i32, int), FormulaError>(((1 + o - q) as i32, 7)));
}

} // verus!

verus! {

/// The value of the hit formula `f` with `^` terms on the actor and `$` terms on the target. A
/// malformed formula, an unknown term or a `^` term without an actor is a content error: it is
/// left out here, and `try_eval_hit` reports it.
pub fn eval_hit(f: &Formula, actor: Option<&Character>, target: &Character, statblocks: &StatBlockEncyclopedia) -> (r:
    Stat)
    requires
        hit_formula_value(opt_char(actor), *target, *statblocks, f@) is Ok,
    ensures
        hit_formula_value(opt_char(actor), *target, *statblocks, f@) == Ok::<i32, FormulaError>(r),
{
    match try_eval_hit(f, actor, target, statblocks) {
        Ok(v) => v,
        Err(_) => {
            assert(false);
            0
        },
    }
}

} // verus!
