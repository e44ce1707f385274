use vstd::prelude::*;

use crate::common::Id;
use crate::formula::FormulaError;

verus! {

/// A content or configuration error: the game's data refers to something that is not there, or
/// asks for what the battle engine does not do. Such an error halts the operation that met it.
#[derive(Debug, Clone, Copy, PartialEq, Eq, Structural)]
pub enum BattleError {
    /// A formula could not be evaluated.
    Formula(FormulaError),
    /// A live condition refers to a condition id that is not in the table.
    MissingCondition(Id),
    /// A menu option refers to an action id that is not in the table.
    MissingAction(Id),
    /// An action refers to an effect id that is not in the table.
    MissingEffect(Id),
    /// A cost or a hit names a pool that the character does not have.
    MissingPool,
    /// A player index names no member of its party.
    MissingCharacter,
    /// An action's scope is not one that targeting supports.
    UnsupportedScope,
    /// An action was confirmed that its actor cannot pay for.
    Unaffordable,
}

} // verus!
