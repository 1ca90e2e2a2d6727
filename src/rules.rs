//! The rule store: which entries of the rules directory are rules.
use vstd::prelude::*;

verus! {

/// One entry of the rules directory.
pub struct RuleEntry {
    pub path: String,
    /// Whether the entry is a regular file.
    pub is_file: bool,
}

/// The paths of the regular files among `entries`, in order.
pub open spec fn rule_paths(entries: Seq<RuleEntry>) -> Seq<Seq<char>>
    decreases entries.len(),
{
    if entries.len() == 0 {
        Seq::empty()
    } else {
        let last = entries.last();
        let rest = rule_paths(entries.drop_last());
        if last.is_file {
            rest.push(last.path@)
        } else {
            rest
        }
    }
}

/// The rules found among the entries of the rules directory: the paths of its
/// regular files, in the order of enumeration.
pub fn list_rules(entries: &Vec<RuleEntry>) -> (r: Vec<String>)
    ensures
        r@.map_values(|s: String| s@) == rule_paths(entries@),
{
    let mut r: Vec<String> = Vec::new();
    let mut i: usize = 0;
    while i < entries.len()
        invariant
            i <= entries.len(),
            r@.map_values(|s: String| s@) == rule_paths(entries@.take(i as int)),
        decreases entries.len() - i,
    {
        assert(entries@.take(i as int + 1).drop_last() == entries@.take(i as int));
        if entries[i].is_file {
            let p = entries[i].path.clone();
            r.push(p);
            assert(r@.map_values(|s: String| s@) =~= rule_paths(entries@.take(i as int)).push(
                entries@[i as int].path@,
            ));
        }
        i = i + 1;
    }
    assert(entries@.take(entries.len() as int) == entries@);
    r
}

} // verus!
