//! The tree walker's pure part: mapping a file's location under the
//! scanned root to its module path.
//!
//! The walker itself (directory recursion, reading files) performs I/O and
//! lives outside the library; it hands each visited file's root-relative
//! path here.  Only files with the `.rs` extension are scanned; every path
//! component becomes one module segment and the file name, extension
//! stripped, becomes the final segment.  The module path depends on the
//! file's location alone, never on its contents.

use vstd::prelude::*;
use vstd::string::*;

verus! {

/// Position of the first `/` in a path, if any.
pub open spec fn slash_pos(s: Seq<char>) -> Option<nat>
    decreases s.len(),
{
    if s.len() == 0 {
        None
    } else if s[0] == '/' {
        Some(0)
    } else {
        match slash_pos(s.skip(1)) {
            Some(p) => Some(p + 1),
            None => None,
        }
    }
}

/// A path split at every `/`; empty components are kept as empty segments.
pub open spec fn split_slash(s: Seq<char>) -> Seq<Seq<char>>
    decreases s.len(),
{
    match slash_pos(s) {
        Some(p) => if p < s.len() {
            seq![s.take(p as int)] + split_slash(s.skip(p as int + 1))
        } else {
            seq![s]
        },
        None => seq![s],
    }
}

/// The module segments of a root-relative file path: `None` unless the file
/// name carries the `.rs` extension, else every path component with the
/// final component's extension stripped.
pub open spec fn spec_module_segments(s: Seq<char>) -> Option<Seq<Seq<char>>> {
    let segs = split_slash(s);
    let last = segs.last();
    if last.len() > 3 && last.skip(last.len() - 3) == ".rs"@ {
        Some(segs.update(segs.len() - 1, last.take(last.len() - 3)))
    } else {
        None
    }
}

proof fn lemma_slash_pos_is(s: Seq<char>, k: nat)
    requires
        k <= s.len(),
        forall|j: int| 0 <= j < k ==> s[j] != '/',
        k < s.len() ==> s[k as int] == '/',
    ensures
        k == s.len() ==> slash_pos(s) is None,
        k < s.len() ==> slash_pos(s) == Some(k),
    decreases k,
{
    if k == 0 {
    } else {
        assert(s[0] != '/');
        let t = s.skip(1);
        assert forall|j: int| 0 <= j < k - 1 implies t[j] != '/' by {
            assert(t[j] == s[j + 1]);
        }
        if k < s.len() {
            assert(t[k - 1] == s[k as int]);
        }
        lemma_slash_pos_is(t, (k - 1) as nat);
    }
}

spec fn split_join(done: Seq<Seq<char>>, rest: Seq<char>) -> Seq<Seq<char>> {
    done + split_slash(rest)
}

/// Computes the module segments of one root-relative file path, or `None`
/// for a file the scan skips.
pub fn module_segments(rel_path: &str) -> (r: Option<Vec<String>>)
    ensures
        (r is Some) == (spec_module_segments(rel_path@) is Some),
        r is Some ==> r->0.deep_view() == spec_module_segments(rel_path@).unwrap(),
{
    let n = rel_path.unicode_len();
    let mut segments: Vec<String> = Vec::new();
    let mut pos: usize = 0;
    proof {
        assert(segments.deep_view() =~= Seq::<Seq<char>>::empty());
        assert(rel_path@.skip(0) =~= rel_path@);
        assert(split_slash(rel_path@) =~= split_join(segments.deep_view(), rel_path@.skip(0)));
    }
    loop
        invariant
            pos <= n,
            n == rel_path@.len(),
            split_slash(rel_path@) == split_join(segments.deep_view(), rel_path@.skip(pos as int)),
        decreases n - pos,
    {
        let ghost sdv = segments.deep_view();
        let ghost suffix = rel_path@.skip(pos as int);
        let mut i: usize = pos;
        while i < n && rel_path.get_char(i) != '/'
            invariant
                pos <= i <= n,
                n == rel_path@.len(),
                forall|j: int| pos <= j < i ==> rel_path@[j] != '/',
            decreases n - i,
        {
            i += 1;
        }
        proof {
            let k = (i - pos) as nat;
            assert forall|j: int| 0 <= j < k implies suffix[j] != '/' by {
                assert(suffix[j] == rel_path@[pos + j]);
            }
            if k < suffix.len() {
                assert(suffix[k as int] == rel_path@[i as int]);
            }
            lemma_slash_pos_is(suffix, k);
        }
        if i == n {
            // final component; the scan takes the file only with the `.rs`
            // extension and a nonempty stem
            proof {
                assert(split_slash(suffix) == seq![suffix]);
                assert(split_slash(rel_path@) == sdv + seq![suffix]);
                assert(split_slash(rel_path@).last() == suffix);
                assert(suffix =~= rel_path@.subrange(pos as int, n as int));
            }
            let ghost segs = split_slash(rel_path@);
            let ghost last = segs.last();
            if n - pos > 3 && rel_path.get_char(n - 3) == '.' && rel_path.get_char(n - 2) == 'r'
                && rel_path.get_char(n - 1) == 's' {
                proof {
                    reveal_strlit(".rs");
                    assert(last.skip(last.len() - 3) =~= ".rs"@);
                }
                let stem = rel_path.substring_char(pos, n - 3).to_owned();
                segments.push(stem);
                proof {
                    assert(last.take(last.len() - 3) =~= rel_path@.subrange(pos as int, n - 3));
                    assert(segs.update(segs.len() - 1, last.take(last.len() - 3)) =~= sdv + seq![
                        last.take(last.len() - 3),
                    ]);
                    assert(segments.deep_view() =~= sdv + seq![last.take(last.len() - 3)]);
                }
                return Some(segments);
            } else {
                proof {
                    reveal_strlit(".rs");
                    if last.len() > 3 && last.skip(last.len() - 3) == ".rs"@ {
                        let a = last.len() - 3;
                        assert(last.skip(a)[0] == last[a]);
                        assert(last.skip(a)[1] == last[a + 1]);
                        assert(last.skip(a)[2] == last[a + 2]);
                        assert(last[last.len() - 3] == '.');
                        assert(last[last.len() - 2] == 'r');
                        assert(last[last.len() - 1] == 's');
                        assert(rel_path@[n - 3] == last[last.len() - 3]);
                        assert(rel_path@[n - 2] == last[last.len() - 2]);
                        assert(rel_path@[n - 1] == last[last.len() - 1]);
                        assert(false);
                    }
                }
                return None;
            }
        }
        let seg = rel_path.substring_char(pos, i).to_owned();
        segments.push(seg);
        proof {
            let k = (i - pos) as int;
            assert(seg@ =~= suffix.take(k));
            assert(suffix.skip(k + 1) =~= rel_path@.skip(i + 1));
            assert(segments.deep_view() =~= sdv + seq![suffix.take(k)]);
            assert(sdv + (seq![suffix.take(k)] + split_slash(rel_path@.skip(i + 1))) =~= (sdv
                + seq![suffix.take(k)]) + split_slash(rel_path@.skip(i + 1)));
        }
        pos = i + 1;
    }
}

} // verus!
