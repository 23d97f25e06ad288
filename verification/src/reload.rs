use vstd::prelude::*;

use crate::text::chars_of;

verus! {

/// `c` with an ASCII uppercase letter made lowercase; any other character
/// unchanged, as `char::to_ascii_lowercase` maps it.
pub open spec fn ascii_lower_char(c: char) -> char {
    if 'A' <= c && c <= 'Z' {
        ((c as u32) + 32) as char
    } else {
        c
    }
}

/// The two strings match once their ASCII letters are lowercased, as
/// `str::eq_ignore_ascii_case` decides.
pub open spec fn spec_eq_ignore_ascii_case(a: Seq<char>, b: Seq<char>) -> bool {
    a.len() == b.len() && forall|i: int|
        0 <= i < a.len() ==> ascii_lower_char(#[trigger] a[i]) == ascii_lower_char(b[i])
}

/// Whether two strings match once their ASCII letters are lowercased.
pub fn eq_ignore_ascii_case(a: &str, b: &str) -> (r: bool)
    ensures
        r == spec_eq_ignore_ascii_case(a@, b@),
{
    let x = chars_of(a);
    let y = chars_of(b);
    if x.len() != y.len() {
        return false;
    }
    let mut i: usize = 0;
    while i < x.len()
        invariant
            x@ == a@,
            y@ == b@,
            x@.len() == y@.len(),
            i <= x@.len(),
            forall|j: int| 0 <= j < i ==> ascii_lower_char(#[trigger] a@[j]) == ascii_lower_char(b@[j]),
        decreases x@.len() - i,
    {
        let c = x[i];
        let d = y[i];
        let lc = if 'A' <= c && c <= 'Z' {
            ((c as u32) + 32) as u8 as char
        } else {
            c
        };
        let ld = if 'A' <= d && d <= 'Z' {
            ((d as u32) + 32) as u8 as char
        } else {
            d
        };
        if lc != ld {
            assert(ascii_lower_char(a@[i as int]) != ascii_lower_char(b@[i as int]));
            return false;
        }
        i = i + 1;
    }
    true
}

/// What the hourly refresh does next.
#[derive(Debug, Clone, Copy, PartialEq, Eq, Structural)]
pub enum ReloadAction {
    /// Keep the charts that are loaded.
    KeepCurrent,
    /// Load the charts of the fetched cycle, and publish them with the cycle
    /// only if they load.
    LoadCycle,
}

/// What the hourly refresh does after asking for the current cycle: nothing
/// when the request failed (`None`) or named the loaded cycle, compared
/// without regard to ASCII case; load the fetched cycle otherwise.
pub fn reload_action(current_cycle: &str, fetched_cycle: &Option<String>) -> (r: ReloadAction)
    ensures
        r == match fetched_cycle {
            None => ReloadAction::KeepCurrent,
            Some(f) => if spec_eq_ignore_ascii_case(f@, current_cycle@) {
                ReloadAction::KeepCurrent
            } else {
                ReloadAction::LoadCycle
            },
        },
{
    match fetched_cycle {
        None => ReloadAction::KeepCurrent,
        Some(f) => if eq_ignore_ascii_case(f.as_str(), current_cycle) {
            ReloadAction::KeepCurrent
        } else {
            ReloadAction::LoadCycle
        },
    }
}

/// Asking again for the loaded cycle never loads it again.
pub proof fn lemma_same_cycle_keeps(cycle: Seq<char>)
    ensures
        spec_eq_ignore_ascii_case(cycle, cycle),
{
}

} // verus!
