use vstd::prelude::*;

use crate::common::{Id, IndexedOrLiteral, Name};
use crate::effect::Effect;
use crate::encyclopedia::ActionEncyclopedia;
use crate::table::Table;
use crate::text::{list_names, name_list, replace_all, replace_text, views};

verus! {

/// What a pool must hold, by pool name, for an action to be taken.
pub type Costs = Table<u32>;

pub type Effects = Vec<IndexedOrLiteral<Effect>>;

/// Who an action may be aimed at, and how many.
#[derive(Debug, Clone, Copy, PartialEq, Eq, Structural)]
pub enum Scope {
    NoTarget,
    Me,
    You,
    Ally,
    Enemy,
    One,
    MyAllies,
    Allies,
    Enemies,
    All,
}

/// A thing a character can do: its costs, its effects on each target, and its message.
#[derive(Debug, Clone, PartialEq)]
pub struct Action {
    pub id: Id,
    pub name: Name,
    pub costs: Costs,
    pub effects: Effects,
    pub scope: Scope,
    pub message: String,
}

/// One option of an action menu.
#[derive(Debug)]
pub enum CharacterAction {
    Index(Id),
    Menu(ActionMenu),
    Literal(Action),
    UseItem,
}

/// A menu of actions: a prompt and its options, some of which may be menus themselves.
#[derive(Debug)]
pub struct ActionMenu {
    pub prompt: Name,
    pub options: Vec<CharacterAction>,
}

/// The text shown for an option, where the action it names can be found.
pub open spec fn prompt_of(ca: CharacterAction, act_en: ActionEncyclopedia) -> Option<Seq<char>> {
    match ca {
        CharacterAction::Index(id) => if act_en.records().contains_key(id) {
            Some(act_en.records()[id].name@)
        } else {
            None
        },
        CharacterAction::Menu(m) => Some(m.prompt@),
        CharacterAction::Literal(a) => Some(a.name@),
        CharacterAction::UseItem => Some("Item"@),
    }
}

/// The message of an action, with the actor's name and the listed target names filled in.
pub open spec fn message_text(msg: Seq<char>, actor: Seq<char>, targets: Seq<Seq<char>>) -> Seq<char> {
    replace_all(replace_all(msg, "{:actor}"@, actor), "{:targets}"@, name_list(targets))
}

impl ActionMenu {
    /// The default root menu: the action with id 0, then item use.
    pub fn new() -> (r: ActionMenu)
        ensures
            r.prompt@ == "ROOT"@,
            r.options@.len() == 2,
            r.options@[0] == CharacterAction::Index(0),
            r.options@[1] == CharacterAction::UseItem,
    {
        let mut ca: Vec<CharacterAction> = Vec::new();
        ca.push(CharacterAction::Index(0));
        ca.push(CharacterAction::UseItem);
        ActionMenu { prompt: String::from_str("ROOT"), options: ca }
    }

    pub fn get_prompt(&self) -> (r: &Name)
        ensures
            *r == self.prompt,
    {
        &self.prompt
    }

    pub fn len(&self) -> (r: usize)
        ensures
            r == self.options@.len(),
    {
        self.options.len()
    }

    /// The text of each option, or `None` where an option names an action that is not in `act_en`.
    pub fn get_prompts(&self, act_en: &ActionEncyclopedia) -> (r: Option<Vec<Name>>)
        ensures
            match r {
                Some(v) => prompts_are(*self, *act_en, v@),
                None => !prompts_resolve(*self, *act_en),
            },
    {
        let mut pr: Vec<Name> = Vec::new();
        let mut i: usize = 0;
        while i < self.options.len()
            invariant
                i <= self.options@.len(),
                pr@.len() == i,
                forall|j: int| 0 <= j < i ==> prompt_of(self.options@[j], *act_en) == Some(#[trigger] pr@[j]@),
            decreases self.options@.len() - i,
        {
            let p = match &self.options[i] {
                CharacterAction::Index(id) => match act_en.get(id) {
                    Some(a) => a.copy_name(),
                    None => {
                        assert(prompt_of(self.options@[i as int], *act_en) is None);
                        return None;
                    },
                },
                CharacterAction::Menu(m) => m.prompt.clone(),
                CharacterAction::Literal(a) => a.name.clone(),
                CharacterAction::UseItem => String::from_str("Item"),
            };
            pr.push(p);
            i = i + 1;
        }
        Some(pr)
    }

    /// The option at position `opt`.
    pub fn get_option(&self, opt: usize) -> (r: Option<&CharacterAction>)
        ensures
            match r {
                Some(ca) => opt < self.options@.len() && *ca == self.options@[opt as int],
                None => opt >= self.options@.len(),
            },
    {
        if opt < self.options.len() {
            Some(&self.options[opt])
        } else {
            None
        }
    }
}

impl Action {
    /// The scope of an action whose record gives none.
    pub fn default_scope() -> (r: Scope)
        ensures
            r == Scope::Enemy,
    {
        Scope::Enemy
    }

    /// The message of an action whose record gives none.
    pub fn default_message() -> (r: String)
        ensures
            r@ == "{:actor} did something to {:target}."@,
    {
        String::from_str("{:actor} did something to {:target}.")
    }

    pub fn copy_name(&self) -> (r: Name)
        ensures
            r == self.name,
    {
        self.name.clone()
    }

    /// The action's message with `{:actor}` replaced by `actor` and `{:targets}` by the target
    /// names listed as a sentence lists them.
    pub fn get_message(&self, actor: &str, target_names: &Vec<Name>) -> (r: String)
        ensures
            r@ == message_text(self.message@, actor@, views(target_names@)),
    {
        let targets = list_names(target_names);
        proof {
            reveal_strlit("{:actor}");
            reveal_strlit("{:targets}");
        }
        let with_actor = replace_text(self.message.as_str(), "{:actor}", actor);
        replace_text(with_actor.as_str(), "{:targets}", targets.as_str())
    }
}

} // verus!

verus! {

/// The action that selection path `path` leads to from `menu`: each index picks an option, a
/// menu option descends, an indexed or literal action ends the walk. Item use, an index out of
/// range, or a path that ends on a menu lead to none.
pub open spec fn selection_of(menu: ActionMenu, path: Seq<usize>, enc: ActionEncyclopedia) -> Option<Action>
    decreases path.len(),
{
    if path.len() == 0 || path[0] >= menu.options@.len() {
        None
    } else {
        match menu.options@[path[0] as int] {
            CharacterAction::Index(id) => if enc.records().contains_key(id) {
                Some(enc.records()[id])
            } else {
                None
            },
            CharacterAction::Literal(a) => Some(a),
            CharacterAction::Menu(m) => selection_of(m, path.drop_first(), enc),
            CharacterAction::UseItem => None,
        }
    }
}

/// The menus visited along `path` from `menu`, `menu` first, where every index picks a menu.
pub open spec fn menus_along(menu: ActionMenu, path: Seq<usize>) -> Option<Seq<ActionMenu>>
    decreases path.len(),
{
    if path.len() == 0 {
        Some(seq![menu])
    } else if path[0] < menu.options@.len() && menu.options@[path[0] as int] is Menu {
        match menus_along(menu.options@[path[0] as int]->Menu_0, path.drop_first()) {
            Some(ms) => Some(seq![menu] + ms),
            None => None,
        }
    } else {
        None
    }
}

/// `names` are the prompts of `menu`'s options, in order.
pub open spec fn prompts_are(menu: ActionMenu, enc: ActionEncyclopedia, names: Seq<String>) -> bool {
    &&& names.len() == menu.options@.len()
    &&& forall|i: int| 0 <= i < names.len() ==> prompt_of(menu.options@[i], enc) == Some(#[trigger] names[i]@)
}

/// Every option of `menu` has a prompt.
pub open spec fn prompts_resolve(menu: ActionMenu, enc: ActionEncyclopedia) -> bool {
    forall|i: int| 0 <= i < menu.options@.len() ==> (#[trigger] prompt_of(menu.options@[i], enc)) is Some
}

/// The menus along a path start with the root and number one more than the path.
pub proof fn lemma_menus_along(menu: ActionMenu, path: Seq<usize>)
    ensures
        menus_along(menu, path) matches Some(ms) ==> ms.len() == path.len() + 1 && ms[0] == menu,
    decreases path.len(),
{
    if path.len() > 0 && path[0] < menu.options@.len() && menu.options@[path[0] as int] is Menu {
        lemma_menus_along(menu.options@[path[0] as int]->Menu_0, path.drop_first());
    }
}

/// Resolving a selection path depends on the path, the tree and the table alone: the same
/// arguments give the same action.
pub proof fn lemma_selection_deterministic(
    menu: ActionMenu,
    path: Seq<usize>,
    enc: ActionEncyclopedia,
    other_menu: ActionMenu,
    other_path: Seq<usize>,
)
    requires
        menu == other_menu,
        path == other_path,
    ensures
        selection_of(menu, path, enc) == selection_of(other_menu, other_path, enc),
{
}

/// The option that selection path `path` ends on, where every earlier index picks a menu.
pub open spec fn option_along(menu: ActionMenu, path: Seq<usize>) -> Option<CharacterAction>
    decreases path.len(),
{
    if path.len() == 0 || path[0] >= menu.options@.len() {
        None
    } else if path.len() == 1 {
        Some(menu.options@[path[0] as int])
    } else {
        match menu.options@[path[0] as int] {
            CharacterAction::Menu(m) => option_along(m, path.drop_first()),
            _ => None,
        }
    }
}

impl ActionMenu {
    /// The option that selection path `path` ends on, where every earlier index picks a menu.
    pub fn option_at(&self, path: &Vec<usize>) -> (r: Option<&CharacterAction>)
        ensures
            match r {
                Some(ca) => option_along(*self, path@) == Some(*ca),
                None => option_along(*self, path@) is None,
            },
    {
        let n = path.len();
        if n == 0 {
            return None;
        }
        let mut menu: &ActionMenu = self;
        let mut k: usize = 0;
        proof {
            assert(path@.subrange(0, n as int) =~= path@);
        }
        while k < n - 1
            invariant
                n == path@.len(),
                n > 0,
                k < n,
                option_along(*self, path@) == option_along(*menu, path@.subrange(k as int, n as int)),
            decreases n - k,
        {
            let ghost rest = path@.subrange(k as int, n as int);
            proof {
                assert(rest.drop_first() =~= path@.subrange(k + 1, n as int));
            }
            match menu.get_option(path[k]) {
                Some(CharacterAction::Menu(m)) => {
                    menu = m;
                    k = k + 1;
                },
                _ => {
                    return None;
                },
            }
        }
        menu.get_option(path[k])
    }
}

} // verus!
