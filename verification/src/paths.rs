//! Which files of a project the client leaves out of an upload.
use vstd::prelude::*;
use vstd::string::*;

verus! {

/// The name of the directory that an upload leaves out: `runtime`.
pub open spec fn skipped_dir() -> Seq<char> {
    seq!['r', 'u', 'n', 't', 'i', 'm', 'e']
}

/// Whether `seg` stands in `path` at position `i` as a whole component: between the start
/// of the path or a `/`, and the end of the path or a `/`.
pub open spec fn component_at(path: Seq<char>, seg: Seq<char>, i: int) -> bool {
    &&& 0 <= i
    &&& i + seg.len() <= path.len()
    &&& path.subrange(i, i + seg.len()) == seg
    &&& (i == 0 || path[i - 1] == '/')
    &&& (i + seg.len() == path.len() || path[i + seg.len()] == '/')
}

/// Whether one of the `/`-separated components of `path` is `seg`.
pub open spec fn has_component(path: Seq<char>, seg: Seq<char>) -> bool {
    exists|i: int| #[trigger] component_at(path, seg, i)
}

/// Whether `runtime` stands in `path` at position `i` as a whole component.
fn skipped_dir_at(path: &str, n: usize, i: usize) -> (found: bool)
    requires
        n == path@.len(),
        i + 7 <= n,
    ensures
        found == component_at(path@, skipped_dir(), i as int),
{
    if i > 0 && path.get_char(i - 1) != '/' {
        return false;
    }
    if i + 7 < n && path.get_char(i + 7) != '/' {
        return false;
    }
    let word: [char; 7] = ['r', 'u', 'n', 't', 'i', 'm', 'e'];
    assert(word@ =~= skipped_dir());
    let mut k: usize = 0;
    while k < 7
        invariant
            k <= 7,
            n == path@.len(),
            i + 7 <= n,
            word@ == skipped_dir(),
            path@.subrange(i as int, i + k) =~= skipped_dir().subrange(0, k as int),
        decreases 7 - k,
    {
        if path.get_char(i + k) != word[k] {
            assert(path@.subrange(i as int, i + 7)[k as int] != skipped_dir()[k as int]);
            return false;
        }
        k = k + 1;
    }
    assert(skipped_dir().subrange(0, 7) =~= skipped_dir());
    true
}

/// Whether a file is left out of an upload: one of the components of its path, read with
/// `/` as the separator, is `runtime`.
pub fn should_skip(path: &str) -> (skip: bool)
    ensures
        skip == has_component(path@, skipped_dir()),
{
    let n = path.unicode_len();
    if n < 7 {
        assert(!has_component(path@, skipped_dir())) by {
            if has_component(path@, skipped_dir()) {
                let i = choose|i: int| #[trigger] component_at(path@, skipped_dir(), i);
                assert(component_at(path@, skipped_dir(), i));
            }
        }
        return false;
    }
    let mut i: usize = 0;
    while i <= n - 7
        invariant
            n == path@.len(),
            n >= 7,
            i <= n - 6,
            forall|j: int| 0 <= j < i ==> !#[trigger] component_at(path@, skipped_dir(), j),
        decreases n - 6 - i,
    {
        if skipped_dir_at(path, n, i) {
            return true;
        }
        i = i + 1;
    }
    assert(!has_component(path@, skipped_dir())) by {
        if has_component(path@, skipped_dir()) {
            let j = choose|j: int| #[trigger] component_at(path@, skipped_dir(), j);
            assert(component_at(path@, skipped_dir(), j));
        }
    }
    false
}


/// `seg` stands between `before` and `after` as a whole component: `before` is empty or
/// ends with `/`, and `after` is empty or starts with `/`.
pub open spec fn separated(before: Seq<char>, after: Seq<char>) -> bool {
    &&& (before.len() == 0 || before.last() == '/')
    &&& (after.len() == 0 || after[0] == '/')
}

/// The skipped directory is named `runtime`.
pub proof fn lemma_skipped_dir_text()
    ensures
        skipped_dir() == "runtime"@,
{
    reveal_strlit("runtime");
    assert(skipped_dir() =~= "runtime"@);
}

/// A path has the component `seg` exactly when it is some text, then `seg`, then some
/// text, where `seg` is separated from both by `/` or by the ends of the path; wherever in
/// the path, however long the text before it.
pub proof fn lemma_component_meaning(path: Seq<char>, seg: Seq<char>, before: Seq<char>, after: Seq<char>)
    ensures
        separated(before, after) ==> has_component(before + seg + after, seg),
        has_component(path, seg) ==> exists|x: Seq<char>, y: Seq<char>|
            path == x + seg + y && #[trigger] separated(x, y),
{
    let p = before + seg + after;
    let i = before.len() as int;
    if separated(before, after) {
        assert(p.subrange(i, i + seg.len()) =~= seg);
        if i > 0 {
            assert(p[i - 1] == before.last());
        }
        if i + seg.len() < p.len() {
            assert(p[i + seg.len()] == after[0]);
        }
        assert(component_at(p, seg, i));
    }
    if has_component(path, seg) {
        let k = choose|k: int| #[trigger] component_at(path, seg, k);
        let x = path.subrange(0, k);
        let y = path.subrange(k + seg.len(), path.len() as int);
        assert(path =~= x + seg + y);
        if x.len() > 0 {
            assert(x.last() == path[k - 1]);
        }
        if y.len() > 0 {
            assert(y[0] == path[k + seg.len()]);
        }
        assert(separated(x, y));
    }
}

} // verus!
