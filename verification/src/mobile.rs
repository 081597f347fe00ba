//! The companion for phones and tablets, as far as it is planned.

use vstd::prelude::*;

verus! {

/// An operating system family.
#[derive(Clone, Copy, PartialEq, Eq, Structural, Debug)]
pub enum OsKind {
    MacOs,
    Windows,
    Linux,
    Android,
    Ios,
}

/// The families that the companion is planned for.
pub fn planned_targets() -> (targets: [OsKind; 2])
    ensures
        targets@ == seq![OsKind::Android, OsKind::Ios],
{
    [OsKind::Android, OsKind::Ios]
}

} // verus!
