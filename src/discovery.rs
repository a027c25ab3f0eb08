//! Test-file discovery: which of the given paths, and of the files found
//! under the given directories, are test files.
use vstd::prelude::*;

use crate::text::{chars_of, equals_exec, has_infix, has_infix_exec, has_suffix, has_suffix_exec};

verus! {

/// A file name that marks a test file: a `.test`/`.spec` suffix on a
/// script source, a `.test.`/`.spec.` infix anywhere, or the test
/// directory's reserved name.
pub open spec fn is_test_name(name: Seq<char>) -> bool {
    has_suffix(name, ".test.ts"@) || has_suffix(name, ".test.js"@) || has_suffix(name, ".spec.ts"@)
        || has_suffix(name, ".spec.js"@) || name == "__tests__"@ || has_infix(name, ".test."@)
        || has_infix(name, ".spec."@)
}

/// One entry met while walking a directory tree.
pub struct Entry {
    /// The entry's full path.
    pub path: String,
    /// The last component of the path (empty where there is none).
    pub file_name: String,
    /// Whether the entry is a regular file.
    pub is_file: bool,
}

/// One path that was asked for, with what a walk under it found, if it is
/// a directory.
pub struct InputPath {
    pub path: String,
    /// The last component of the path (empty where there is none).
    pub file_name: String,
    /// The entries under the path, in walk order, where the path is a
    /// directory; `None` where it is not.
    pub walked: Option<Vec<Entry>>,
}

/// The paths of the walked entries that are test files, in walk order.
pub open spec fn walk_selection(es: Seq<Entry>) -> Seq<Seq<char>>
    decreases es.len(),
{
    if es.len() == 0 {
        seq![]
    } else {
        let rest = walk_selection(es.drop_last());
        let e = es.last();
        if e.is_file && is_test_name(e.file_name@) {
            rest.push(e.path@)
        } else {
            rest
        }
    }
}

/// What one input contributes: itself where its name marks a test file,
/// else the test files under it where it is a directory.
pub open spec fn input_selection(i: InputPath) -> Seq<Seq<char>> {
    if is_test_name(i.file_name@) {
        seq![i.path@]
    } else {
        match i.walked {
            Some(es) => walk_selection(es@),
            None => seq![],
        }
    }
}

/// What the inputs contribute, in input order.
pub open spec fn inputs_selection(s: Seq<InputPath>) -> Seq<Seq<char>>
    decreases s.len(),
{
    if s.len() == 0 {
        seq![]
    } else {
        inputs_selection(s.drop_last()) + input_selection(s.last())
    }
}

/// The discovered test files: those of the inputs, or, with no inputs,
/// those found by walking the current directory.
pub open spec fn discovery(inputs: Seq<InputPath>, cwd: Seq<Entry>) -> Seq<Seq<char>> {
    if inputs.len() == 0 {
        walk_selection(cwd)
    } else {
        inputs_selection(inputs)
    }
}

pub open spec fn path_views(ps: Seq<String>) -> Seq<Seq<char>> {
    ps.map_values(|p: String| p@)
}

/// Whether a file name marks a test file.
pub fn is_test_file(file_name: &str) -> (r: bool)
    ensures
        r == is_test_name(file_name@),
{
    let s = chars_of(file_name);
    has_suffix_exec(&s, ".test.ts") || has_suffix_exec(&s, ".test.js") || has_suffix_exec(
        &s,
        ".spec.ts",
    ) || has_suffix_exec(&s, ".spec.js") || equals_exec(&s, "__tests__") || has_infix_exec(
        &s,
        ".test.",
    ) || has_infix_exec(&s, ".spec.")
}

fn push_path(out: &mut Vec<String>, p: &String)
    ensures
        final(out)@ == old(out)@.push(*p),
        path_views(final(out)@) == path_views(old(out)@).push(p@),
{
    out.push(p.clone());
    assert(path_views(final(out)@) =~= path_views(old(out)@).push(p@));
}

/// Appends to `out` the test files among walked entries, in walk order.
fn select_walked(out: &mut Vec<String>, entries: &Vec<Entry>)
    ensures
        path_views(final(out)@) == path_views(old(out)@) + walk_selection(entries@),
{
    let mut i: usize = 0;
    while i < entries.len()
        invariant
            i <= entries@.len(),
            path_views(out@) == path_views(old(out)@) + walk_selection(
                entries@.subrange(0, i as int),
            ),
        decreases entries@.len() - i,
    {
        let e = &entries[i];
        assert(entries@.subrange(0, i + 1).drop_last() =~= entries@.subrange(0, i as int));
        if e.is_file && is_test_file(e.file_name.as_str()) {
            push_path(out, &e.path);
        }
        i += 1;
    }
    assert(entries@.subrange(0, i as int) =~= entries@);
}

/// The test files among the inputs, in input order; with no inputs, the
/// test files found by walking the current directory (`cwd`).
pub fn find_test_files(inputs: &Vec<InputPath>, cwd: &Vec<Entry>) -> (r: Vec<String>)
    ensures
        path_views(r@) == discovery(inputs@, cwd@),
{
    let mut out: Vec<String> = Vec::new();
    if inputs.len() == 0 {
        select_walked(&mut out, cwd);
        assert(path_views(out@) =~= walk_selection(cwd@));
        return out;
    }
    let mut i: usize = 0;
    while i < inputs.len()
        invariant
            i <= inputs@.len(),
            path_views(out@) == inputs_selection(inputs@.subrange(0, i as int)),
        decreases inputs@.len() - i,
    {
        let input = &inputs[i];
        assert(inputs@.subrange(0, i + 1).drop_last() =~= inputs@.subrange(0, i as int));
        let ghost before = path_views(out@);
        if is_test_file(input.file_name.as_str()) {
            push_path(&mut out, &input.path);
            assert(path_views(out@) =~= before + seq![input.path@]);
        } else {
            match &input.walked {
                Some(entries) => {
                    select_walked(&mut out, entries);
                },
                None => {
                    assert(before =~= before + Seq::<Seq<char>>::empty());
                },
            }
        }
        i += 1;
    }
    assert(inputs@.subrange(0, i as int) =~= inputs@);
    out
}

/// Discovery depends on nothing but the inputs and the walked entries:
/// the same inputs over the same filesystem give the same ordered paths.
pub proof fn lemma_discovery_deterministic(
    inputs1: Seq<InputPath>,
    cwd1: Seq<Entry>,
    inputs2: Seq<InputPath>,
    cwd2: Seq<Entry>,
)
    requires
        inputs1 == inputs2,
        cwd1 == cwd2,
    ensures
        discovery(inputs1, cwd1) == discovery(inputs2, cwd2),
{
}

} // verus!
