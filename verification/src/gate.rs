//! The gating layer: parses symbol-path specifications, recomputes their
//! flags through the shared naming scheme, and decides inclusion or
//! fallback against the flag store.
//!
//! Two modes exist.  Item mode answers "retain this declaration?": true
//! exactly when the flag is set, with omission (not an error) as the
//! intended degradation.  Function-fallback mode keeps the wrapped function
//! callable and yields a gate that either runs the original body or fails at
//! invocation time with a message naming the missing symbol.
//!
//! Specification grammar: a symbol path is identifier segments separated by
//! `::`, each of ASCII letters, digits and `_`, not starting with a digit.
//! The supertype variant takes `trait_path : SupertraitName`, with spaces
//! allowed only around the single `:`.  A malformed specification fails
//! here, before any flag lookup, with a message describing the grammar.

use vstd::prelude::*;
use vstd::string::*;

use crate::naming::SuperTraitSpec;
use crate::naming::SymbolPath;
use crate::naming::SuperTraitModel;
use crate::naming::join_path;
use crate::store::FlagStore;

verus! {

/// Characters a path segment may consist of: ASCII letters, digits, `_`.
pub open spec fn is_ident_char(c: char) -> bool {
    (97 <= c as u32 && c as u32 <= 122) || (65 <= c as u32 && c as u32 <= 90) || (48 <= c as u32
        && c as u32 <= 57) || c == '_'
}

/// ASCII digits, which may not start a segment.
pub open spec fn is_digit(c: char) -> bool {
    48 <= c as u32 && c as u32 <= 57
}

fn is_ident_char_exec(c: char) -> (r: bool)
    ensures
        r == is_ident_char(c),
{
    let u = c as u32;
    (97 <= u && u <= 122) || (65 <= u && u <= 90) || (48 <= u && u <= 57) || c == '_'
}

fn is_digit_exec(c: char) -> (r: bool)
    ensures
        r == is_digit(c),
{
    let u = c as u32;
    48 <= u && u <= 57
}

/// Length of the longest prefix of identifier characters.
pub open spec fn ident_prefix_len(s: Seq<char>) -> nat
    decreases s.len(),
{
    if s.len() == 0 {
        0
    } else if !is_ident_char(s[0]) {
        0
    } else {
        1 + ident_prefix_len(s.drop_first())
    }
}

proof fn lemma_ident_prefix_len_is(s: Seq<char>, k: nat)
    requires
        k <= s.len(),
        forall|j: int| 0 <= j < k ==> is_ident_char(s[j]),
        k < s.len() ==> !is_ident_char(s[k as int]),
    ensures
        ident_prefix_len(s) == k,
    decreases s.len(),
{
    if k == 0 {
    } else {
        assert(is_ident_char(s[0]));
        let t = s.drop_first();
        assert forall|j: int| 0 <= j < k - 1 implies is_ident_char(t[j]) by {
            assert(t[j] == s[j + 1]);
        }
        assert(k - 1 < t.len() ==> !is_ident_char(t[k - 1]));
        lemma_ident_prefix_len_is(t, (k - 1) as nat);
    }
}

/// The deterministic parse of a symbol path: `None` exactly on malformed
/// input, otherwise the segment list.
pub open spec fn spec_parse_path(s: Seq<char>) -> Option<Seq<Seq<char>>>
    decreases s.len(),
{
    let k = ident_prefix_len(s);
    if k == 0 {
        None
    } else if is_digit(s[0]) {
        None
    } else if k == s.len() {
        Some(seq![s])
    } else if k + 2 <= s.len() && s[k as int] == ':' && s[k as int + 1] == ':' {
        match spec_parse_path(s.skip(k as int + 2)) {
            Some(rest) => Some(seq![s.take(k as int)] + rest),
            None => None,
        }
    } else {
        None
    }
}

/// A successfully parsed path has at least one segment.
pub proof fn lemma_parse_path_some_len(s: Seq<char>)
    requires
        spec_parse_path(s) is Some,
    ensures
        spec_parse_path(s).unwrap().len() >= 1,
{
}

spec fn parse_join(done: Seq<Seq<char>>, rest: Seq<char>) -> Option<Seq<Seq<char>>> {
    match spec_parse_path(rest) {
        Some(segs) => Some(done + segs),
        None => None,
    }
}

/// The message a malformed symbol path fails with.
pub open spec fn path_grammar_message() -> Seq<char> {
    "expected a symbol path: identifier segments separated by '::'"@
}

/// The message a one-segment path fails with where a member path (owner
/// plus member) is required.
pub open spec fn member_path_message() -> Seq<char> {
    "expected a symbol path of at least two segments"@
}

/// The message a malformed supertype-pair specification fails with.
pub open spec fn pair_grammar_message() -> Seq<char> {
    "expected a pair 'module::Trait : Supertrait'"@
}

/// A malformed-specification failure, raised at annotation-processing time
/// before any flag lookup.
#[derive(Debug)]
pub struct SpecError {
    pub message: String,
}

fn path_grammar_error() -> (r: SpecError)
    ensures
        r.message@ == path_grammar_message(),
{
    SpecError { message: String::from_str("expected a symbol path: identifier segments separated by '::'") }
}

fn member_path_error() -> (r: SpecError)
    ensures
        r.message@ == member_path_message(),
{
    SpecError { message: String::from_str("expected a symbol path of at least two segments") }
}

fn pair_grammar_error() -> (r: SpecError)
    ensures
        r.message@ == pair_grammar_message(),
{
    SpecError { message: String::from_str("expected a pair 'module::Trait : Supertrait'") }
}

/// Parses a symbol-path specification; fails exactly on input the grammar
/// rejects.
pub fn parse_symbol_path(s: &str) -> (r: Result<SymbolPath, SpecError>)
    ensures
        (r is Ok) == (spec_parse_path(s@) is Some),
        r is Ok ==> r->Ok_0@ == spec_parse_path(s@).unwrap(),
        r is Err ==> r->Err_0.message@ == path_grammar_message(),
{
    let n = s.unicode_len();
    let mut segments: Vec<String> = Vec::new();
    let mut pos: usize = 0;
    proof {
        assert(segments.deep_view() =~= Seq::<Seq<char>>::empty());
        assert(s@.skip(0) =~= s@);
        if spec_parse_path(s@) is Some {
            assert(Seq::<Seq<char>>::empty() + spec_parse_path(s@).unwrap() =~= spec_parse_path(
                s@,
            ).unwrap());
        }
    }
    loop
        invariant
            pos <= n,
            n == s@.len(),
            spec_parse_path(s@) == parse_join(segments.deep_view(), s@.skip(pos as int)),
        decreases n - pos,
    {
        let ghost sdv = segments.deep_view();
        let ghost suffix = s@.skip(pos as int);
        let mut i: usize = pos;
        while i < n && is_ident_char_exec(s.get_char(i))
            invariant
                pos <= i <= n,
                n == s@.len(),
                forall|j: int| pos <= j < i ==> is_ident_char(s@[j]),
            decreases n - i,
        {
            i += 1;
        }
        proof {
            let k = (i - pos) as nat;
            assert forall|j: int| 0 <= j < k implies is_ident_char(suffix[j]) by {
                assert(suffix[j] == s@[pos + j]);
            }
            if k < suffix.len() {
                assert(suffix[k as int] == s@[i as int]);
            }
            lemma_ident_prefix_len_is(suffix, k);
        }
        if i == pos {
            assert(spec_parse_path(s@) is None);
            return Err(path_grammar_error());
        }
        if is_digit_exec(s.get_char(pos)) {
            assert(is_digit(suffix[0]));
            assert(spec_parse_path(s@) is None);
            return Err(path_grammar_error());
        }
        assert(!is_digit(suffix[0])) by {
            assert(suffix[0] == s@[pos as int]);
        }
        let seg = s.substring_char(pos, i).to_owned();
        proof {
            assert(seg@ =~= suffix.take(i - pos));
        }
        if i == n {
            segments.push(seg);
            proof {
                assert(suffix.take(i - pos) =~= suffix);
                assert(spec_parse_path(suffix) == Some(seq![suffix]));
                assert(segments.deep_view() =~= sdv + seq![suffix]);
            }
            return Ok(SymbolPath { segments });
        }
        if i + 1 < n && s.get_char(i) == ':' && s.get_char(i + 1) == ':' {
            segments.push(seg);
            proof {
                let k = (i - pos) as int;
                assert(suffix[k] == s@[i as int]);
                assert(suffix[k as int + 1] == s@[i + 1]);
                assert(suffix.skip(k + 2) =~= s@.skip(i + 2));
                assert(segments.deep_view() =~= sdv + seq![suffix.take(k)]);
                assert forall|rest: Seq<Seq<char>>|
                    sdv + (seq![suffix.take(k)] + rest) =~= (sdv + seq![suffix.take(k)])
                        + rest by {}
                assert(spec_parse_path(s@) == parse_join(
                    segments.deep_view(),
                    s@.skip(i + 2),
                ));
            }
            pos = i + 2;
        } else {
            proof {
                let k = (i - pos) as nat;
                assert(k < suffix.len());
                if k + 2 <= suffix.len() && suffix[k as int] == ':' && suffix[k as int + 1] == ':' {
                    assert(suffix[k as int] == s@[i as int]);
                    if i + 1 < n {
                        assert(suffix[k as int + 1] == s@[i + 1]);
                    }
                    assert(false);
                }
                assert(spec_parse_path(suffix) is None);
            }
            return Err(path_grammar_error());
        }
    }
}

/// The position of the single colon that separates a supertype-pair
/// specification, found by a left-to-right scan that steps over `::` path
/// separators.
pub open spec fn split_colon_pos(s: Seq<char>) -> Option<nat>
    decreases s.len(),
{
    if s.len() == 0 {
        None
    } else if s[0] == ':' {
        if s.len() >= 2 && s[1] == ':' {
            match split_colon_pos(s.skip(2)) {
                Some(p) => Some(p + 2),
                None => None,
            }
        } else {
            Some(0)
        }
    } else {
        match split_colon_pos(s.skip(1)) {
            Some(p) => Some(p + 1),
            None => None,
        }
    }
}

spec fn colon_join(offset: nat, rest: Seq<char>) -> Option<nat> {
    match split_colon_pos(rest) {
        Some(p) => Some(p + offset),
        None => None,
    }
}

fn find_split_colon(s: &str) -> (r: Option<usize>)
    ensures
        (r is Some) == (split_colon_pos(s@) is Some),
        r is Some ==> split_colon_pos(s@) == Some(r->0 as nat),
        r is Some ==> r->0 < s@.len() && s@[r->0 as int] == ':',
{
    let n = s.unicode_len();
    let mut i: usize = 0;
    proof {
        assert(s@.skip(0) =~= s@);
    }
    loop
        invariant
            i <= n,
            n == s@.len(),
            split_colon_pos(s@) == colon_join(i as nat, s@.skip(i as int)),
        decreases n - i,
    {
        let ghost suffix = s@.skip(i as int);
        if i == n {
            assert(suffix.len() == 0);
            return None;
        }
        let c = s.get_char(i);
        proof {
            assert(suffix[0] == s@[i as int]);
        }
        if c == ':' {
            if i + 1 < n && s.get_char(i + 1) == ':' {
                proof {
                    assert(suffix[1] == s@[i + 1]);
                    assert(suffix.skip(2) =~= s@.skip(i + 2));
                }
                i = i + 2;
            } else {
                proof {
                    if suffix.len() >= 2 {
                        assert(suffix[1] == s@[i + 1]);
                    }
                    assert(split_colon_pos(suffix) == Some(0nat));
                }
                return Some(i);
            }
        } else {
            proof {
                assert(suffix.skip(1) =~= s@.skip(i + 1));
            }
            i = i + 1;
        }
    }
}

/// Leading spaces removed.
pub open spec fn trim_left(s: Seq<char>) -> Seq<char>
    decreases s.len(),
{
    if s.len() > 0 && s[0] == ' ' {
        trim_left(s.drop_first())
    } else {
        s
    }
}

/// Trailing spaces removed.
pub open spec fn trim_right(s: Seq<char>) -> Seq<char>
    decreases s.len(),
{
    if s.len() > 0 && s.last() == ' ' {
        trim_right(s.drop_last())
    } else {
        s
    }
}

/// Surrounding spaces removed, as allowed around the pair separator.
pub open spec fn trim_spaces(s: Seq<char>) -> Seq<char> {
    trim_right(trim_left(s))
}

proof fn lemma_trim_left_is(s: Seq<char>, a: nat)
    requires
        a <= s.len(),
        forall|j: int| 0 <= j < a ==> s[j] == ' ',
        a < s.len() ==> s[a as int] != ' ',
    ensures
        trim_left(s) == s.skip(a as int),
    decreases a,
{
    if a == 0 {
        assert(s.skip(0) =~= s);
    } else {
        assert(s[0] == ' ');
        let t = s.drop_first();
        assert forall|j: int| 0 <= j < a - 1 implies t[j] == ' ' by {
            assert(t[j] == s[j + 1]);
        }
        assert(a - 1 < t.len() ==> t[a - 1] != ' ');
        lemma_trim_left_is(t, (a - 1) as nat);
        assert(t.skip(a - 1) =~= s.skip(a as int));
    }
}

proof fn lemma_trim_right_is(s: Seq<char>, b: nat)
    requires
        b <= s.len(),
        forall|j: int| b <= j < s.len() ==> s[j] == ' ',
        b > 0 ==> s[b - 1] != ' ',
    ensures
        trim_right(s) == s.take(b as int),
    decreases s.len(),
{
    if b == s.len() {
        assert(s.take(s.len() as int) =~= s);
    } else {
        assert(s.last() == ' ');
        let t = s.drop_last();
        assert forall|j: int| b <= j < t.len() implies t[j] == ' ' by {
            assert(t[j] == s[j]);
        }
        lemma_trim_right_is(t, b);
        assert(t.take(b as int) =~= s.take(b as int));
    }
}

/// The deterministic parse of a supertype-pair specification: the part
/// before the single colon is a symbol path naming the trait, the part
/// after it a path whose last segment names the supertrait.
pub open spec fn spec_parse_supertrait(s: Seq<char>) -> Option<SuperTraitModel> {
    match split_colon_pos(s) {
        None => None,
        Some(p) => {
            let left = trim_spaces(s.take(p as int));
            let right = trim_spaces(s.skip(p as int + 1));
            match spec_parse_path(left) {
                None => None,
                Some(lsegs) => match spec_parse_path(right) {
                    None => None,
                    Some(rsegs) => Some(
                        SuperTraitModel {
                            module: join_path(lsegs.drop_last()),
                            trait_name: lsegs.last(),
                            supertrait: rsegs.last(),
                        },
                    ),
                },
            }
        },
    }
}

/// Parses a supertype-pair specification; fails exactly on input the
/// two-part grammar rejects.
pub fn parse_supertrait_spec(s: &str) -> (r: Result<SuperTraitSpec, SpecError>)
    ensures
        (r is Ok) == (spec_parse_supertrait(s@) is Some),
        r is Ok ==> r->Ok_0@ == spec_parse_supertrait(s@).unwrap(),
        r is Err ==> r->Err_0.message@ == pair_grammar_message(),
{
    let n = s.unicode_len();
    let p = match find_split_colon(s) {
        Some(p) => p,
        None => {
            return Err(pair_grammar_error());
        },
    };
    let ghost lpart = s@.take(p as int);
    let mut l: usize = 0;
    while l < p && s.get_char(l) == ' '
        invariant
            0 <= l <= p,
            p < s@.len(),
            forall|j: int| 0 <= j < l ==> s@[j] == ' ',
        decreases p - l,
    {
        l += 1;
    }
    let mut rr: usize = p;
    while rr > l && s.get_char(rr - 1) == ' '
        invariant
            l <= rr <= p,
            p < s@.len(),
            forall|j: int| rr <= j < p ==> s@[j] == ' ',
        decreases rr,
    {
        rr -= 1;
    }
    proof {
        assert forall|j: int| 0 <= j < l implies lpart[j] == ' ' by {
            assert(lpart[j] == s@[j]);
        }
        if l < lpart.len() {
            assert(lpart[l as int] == s@[l as int]);
        }
        lemma_trim_left_is(lpart, l as nat);
        let mid = lpart.skip(l as int);
        assert forall|j: int| rr - l <= j < mid.len() implies mid[j] == ' ' by {
            assert(mid[j] == s@[l + j]);
        }
        if rr - l > 0 {
            assert(mid[rr - l - 1] == s@[rr - 1]);
        }
        lemma_trim_right_is(mid, (rr - l) as nat);
        assert(mid.take(rr - l) =~= s@.subrange(l as int, rr as int));
        assert(trim_spaces(lpart) == s@.subrange(l as int, rr as int));
    }
    let left = s.substring_char(l, rr);
    let ghost rpart = s@.skip(p as int + 1);
    let mut l2: usize = p + 1;
    while l2 < n && s.get_char(l2) == ' '
        invariant
            p + 1 <= l2 <= n,
            n == s@.len(),
            forall|j: int| p + 1 <= j < l2 ==> s@[j] == ' ',
        decreases n - l2,
    {
        l2 += 1;
    }
    let mut r2: usize = n;
    while r2 > l2 && s.get_char(r2 - 1) == ' '
        invariant
            l2 <= r2 <= n,
            n == s@.len(),
            forall|j: int| r2 <= j < n ==> s@[j] == ' ',
        decreases r2,
    {
        r2 -= 1;
    }
    proof {
        assert forall|j: int| 0 <= j < l2 - (p + 1) implies rpart[j] == ' ' by {
            assert(rpart[j] == s@[p + 1 + j]);
        }
        if l2 - (p + 1) < rpart.len() {
            assert(rpart[l2 - (p + 1)] == s@[l2 as int]);
        }
        lemma_trim_left_is(rpart, (l2 - (p + 1)) as nat);
        let mid = rpart.skip(l2 - (p + 1));
        assert(mid =~= s@.skip(l2 as int));
        assert forall|j: int| r2 - l2 <= j < mid.len() implies mid[j] == ' ' by {
            assert(mid[j] == s@[l2 + j]);
        }
        if r2 - l2 > 0 {
            assert(mid[r2 - l2 - 1] == s@[r2 - 1]);
        }
        lemma_trim_right_is(mid, (r2 - l2) as nat);
        assert(mid.take(r2 - l2) =~= s@.subrange(l2 as int, r2 as int));
        assert(trim_spaces(rpart) == s@.subrange(l2 as int, r2 as int));
    }
    let right = s.substring_char(l2, r2);
    let lpath = match parse_symbol_path(left) {
        Ok(path) => path,
        Err(_) => {
            return Err(pair_grammar_error());
        },
    };
    let rpath = match parse_symbol_path(right) {
        Ok(path) => path,
        Err(_) => {
            return Err(pair_grammar_error());
        },
    };
    proof {
        lemma_parse_path_some_len(left@);
        lemma_parse_path_some_len(right@);
    }
    let (module_joined, trait_name) = crate::naming::split_path(&lpath);
    let last = rpath.segments.len() - 1;
    let supertrait = rpath.segments[last].clone();
    proof {
        assert(rpath@.last() == rpath.segments@[last as int].deep_view());
    }
    let st = SuperTraitSpec { module: module_joined, trait_name, supertrait };
    proof {
        assert(st@ =~= spec_parse_supertrait(s@).unwrap());
    }
    Ok(st)
}

/// A symbol path as it reads in a failure message: segments joined with
/// `::`.
pub open spec fn spec_render_path(segs: Seq<Seq<char>>) -> Seq<char>
    decreases segs.len(),
{
    if segs.len() == 0 {
        Seq::empty()
    } else if segs.len() == 1 {
        segs[0]
    } else {
        segs[0] + "::"@ + spec_render_path(segs.subrange(1, segs.len() as int))
    }
}

proof fn lemma_render_path_push(segs: Seq<Seq<char>>, x: Seq<char>)
    requires
        segs.len() >= 1,
    ensures
        spec_render_path(segs.push(x)) == spec_render_path(segs) + "::"@ + x,
    decreases segs.len(),
{
    if segs.len() == 1 {
        assert(segs.push(x).subrange(1, 2) =~= seq![x]);
        assert(spec_render_path(seq![x]) == x);
    } else {
        assert(segs.push(x).subrange(1, segs.push(x).len() as int) =~= segs.subrange(
            1,
            segs.len() as int,
        ).push(x));
        lemma_render_path_push(segs.subrange(1, segs.len() as int), x);
        assert(segs.push(x)[0] == segs[0]);
    }
}

/// Renders a symbol path for use in a failure message.
pub fn describe_path(path: &SymbolPath) -> (r: String)
    ensures
        r@ == spec_render_path(path@),
{
    let ghost dv = path.segments.deep_view();
    if path.segments.len() == 0 {
        let r = String::new();
        return r;
    }
    let mut r: String = path.segments[0].clone();
    proof {
        assert(dv.take(1) =~= seq![dv[0]]);
        assert(spec_render_path(seq![dv[0]]) == dv[0]);
    }
    let mut i: usize = 1;
    while i < path.segments.len()
        invariant
            1 <= i <= path.segments.len(),
            dv == path.segments.deep_view(),
            dv.len() == path.segments.len(),
            r@ == spec_render_path(dv.take(i as int)),
        decreases path.segments.len() - i,
    {
        r.append("::");
        r.append(path.segments[i].as_str());
        proof {
            lemma_render_path_push(dv.take(i as int), dv[i as int]);
            assert(dv.take(i as int + 1) =~= dv.take(i as int).push(dv[i as int]));
        }
        i += 1;
    }
    proof {
        assert(dv.take(path.segments.len() as int) =~= dv);
    }
    r
}


/// Renders a supertype-pair specification for use in a failure message.
pub open spec fn spec_describe_supertrait(st: SuperTraitModel) -> Seq<char> {
    "supertrait "@ + st.supertrait + " of "@ + st.module + "::"@ + st.trait_name
}

/// Renders a supertype-pair specification as it reads in a failure message.
pub fn describe_supertrait(st: &SuperTraitSpec) -> (r: String)
    ensures
        r@ == spec_describe_supertrait(st@),
{
    let mut r = String::from_str("supertrait ");
    r.append(st.supertrait.as_str());
    r.append(" of ");
    r.append(st.module.as_str());
    r.append("::");
    r.append(st.trait_name.as_str());
    r
}

/// The result of gating a function in fallback mode: whether the probed
/// flag was present, and the message an invocation fails with when it was
/// not.  The wrapped function's signature is preserved either way; only its
/// behavior at invocation time differs.
pub struct FunctionGate {
    pub present: bool,
    pub failure_message: String,
}

/// What invoking a gated function does: run the original body, or fail
/// with the descriptive message.
pub enum Invocation {
    RunOriginal,
    Fail(String),
}

impl FunctionGate {
    /// The invocation-time decision of a gated function.
    pub fn invoke(&self) -> (r: Invocation)
        ensures
            self.present ==> r is RunOriginal,
            !self.present ==> (r matches Invocation::Fail(m) && m@ == self.failure_message@),
    {
        if self.present {
            Invocation::RunOriginal
        } else {
            Invocation::Fail(self.failure_message.clone())
        }
    }
}

/// Shared item-mode core: the target declaration is retained exactly when
/// the recomputed flag is set; a missing flag is omission, not an error.
pub fn require_for_item(store: &FlagStore, flag: &String) -> (r: bool)
    ensures
        r == store@.contains(flag@),
{
    store.is_set(flag)
}

/// Shared function-fallback core: looks the flag up and carries the
/// failure message for the absent case.
pub fn require_for_function(store: &FlagStore, flag: &String, description: &str) -> (g:
    FunctionGate)
    ensures
        g.present == store@.contains(flag@),
        g.failure_message@ == "missing "@ + description@,
{
    let mut message = String::from_str("missing ");
    message.append(description);
    FunctionGate { present: store.is_set(flag), failure_message: message }
}

/// In function-fallback mode the failure message names the missing symbol:
/// the symbol's description stands in the message from position 8 on.
pub proof fn lemma_failure_message_names_symbol(description: Seq<char>)
    ensures
        ("missing "@ + description).len() == 8 + description.len(),
        ("missing "@ + description).skip(8) == description,
{
    reveal_strlit("missing ");
    assert(("missing "@ + description).skip(8) =~= description);
}

/// The flag a declaration-level gate looks up, from the parsed segments.
pub open spec fn spec_decl_gate_flag(segs: Seq<Seq<char>>, tag: Seq<char>) -> Seq<char> {
    crate::naming::spec_flag(segs.drop_last(), tag, segs.last())
}

/// The flag a member-level gate looks up, from the parsed segments.
pub open spec fn spec_member_gate_flag(segs: Seq<Seq<char>>, tag: Seq<char>, member_tag: Seq<
    char,
>) -> Seq<char> {
    crate::naming::spec_member_flag(segs.take(segs.len() - 2), tag, segs[segs.len() - 2],
        member_tag, segs.last())
}

/// The flag a trait-impl gate looks up: the trait name is the path's last
/// segment, the self type the one before it.
pub open spec fn spec_impl_for_gate_flag(segs: Seq<Seq<char>>) -> Seq<char> {
    crate::naming::spec_member_flag(segs.take(segs.len() - 2), "impl"@, segs.last(), "for"@,
        segs[segs.len() - 2])
}

/// Item-mode gate on a struct-exists fact.
pub fn require_struct(store: &FlagStore, path_spec: &str) -> (r: Result<bool, SpecError>)
    ensures
        (r is Ok) == (spec_parse_path(path_spec@) is Some),
        r is Ok ==> r->Ok_0 == store@.contains(spec_decl_gate_flag(
            spec_parse_path(path_spec@).unwrap(),
            "struct"@,
        )),
        r is Err ==> r->Err_0.message@ == path_grammar_message(),
{
    match parse_symbol_path(path_spec) {
        Ok(path) => {
            proof {
                lemma_parse_path_some_len(path_spec@);
            }
            let flag = crate::naming::make_cfg_struct(&path);
            Ok(require_for_item(store, &flag))
        },
        Err(e) => Err(e),
    }
}

/// Function-fallback gate on a struct-exists fact.
pub fn require_struct_or_fail(store: &FlagStore, path_spec: &str) -> (r: Result<
    FunctionGate,
    SpecError,
>)
    ensures
        (r is Ok) == (spec_parse_path(path_spec@) is Some),
        r is Ok ==> ({
            let segs = spec_parse_path(path_spec@).unwrap();
            &&& r->Ok_0.present == store@.contains(spec_decl_gate_flag(segs, "struct"@))
            &&& r->Ok_0.failure_message@ == "missing "@ + spec_render_path(segs)
        }),
        r is Err ==> r->Err_0.message@ == path_grammar_message(),
{
    match parse_symbol_path(path_spec) {
        Ok(path) => {
            proof {
                lemma_parse_path_some_len(path_spec@);
            }
            let flag = crate::naming::make_cfg_struct(&path);
            let description = describe_path(&path);
            Ok(require_for_function(store, &flag, description.as_str()))
        },
        Err(e) => Err(e),
    }
}

/// Item-mode gate on a trait-exists fact.
pub fn require_trait(store: &FlagStore, path_spec: &str) -> (r: Result<bool, SpecError>)
    ensures
        (r is Ok) == (spec_parse_path(path_spec@) is Some),
        r is Ok ==> r->Ok_0 == store@.contains(spec_decl_gate_flag(
            spec_parse_path(path_spec@).unwrap(),
            "trait"@,
        )),
        r is Err ==> r->Err_0.message@ == path_grammar_message(),
{
    match parse_symbol_path(path_spec) {
        Ok(path) => {
            proof {
                lemma_parse_path_some_len(path_spec@);
            }
            let flag = crate::naming::make_cfg_trait(&path);
            Ok(require_for_item(store, &flag))
        },
        Err(e) => Err(e),
    }
}

/// Function-fallback gate on a trait-exists fact.
pub fn require_trait_or_fail(store: &FlagStore, path_spec: &str) -> (r: Result<
    FunctionGate,
    SpecError,
>)
    ensures
        (r is Ok) == (spec_parse_path(path_spec@) is Some),
        r is Ok ==> ({
            let segs = spec_parse_path(path_spec@).unwrap();
            &&& r->Ok_0.present == store@.contains(spec_decl_gate_flag(segs, "trait"@))
            &&& r->Ok_0.failure_message@ == "missing "@ + spec_render_path(segs)
        }),
        r is Err ==> r->Err_0.message@ == path_grammar_message(),
{
    match parse_symbol_path(path_spec) {
        Ok(path) => {
            proof {
                lemma_parse_path_some_len(path_spec@);
            }
            let flag = crate::naming::make_cfg_trait(&path);
            let description = describe_path(&path);
            Ok(require_for_function(store, &flag, description.as_str()))
        },
        Err(e) => Err(e),
    }
}

/// Item-mode gate on an enum-exists fact.
pub fn require_enum(store: &FlagStore, path_spec: &str) -> (r: Result<bool, SpecError>)
    ensures
        (r is Ok) == (spec_parse_path(path_spec@) is Some),
        r is Ok ==> r->Ok_0 == store@.contains(spec_decl_gate_flag(
            spec_parse_path(path_spec@).unwrap(),
            "enum"@,
        )),
        r is Err ==> r->Err_0.message@ == path_grammar_message(),
{
    match parse_symbol_path(path_spec) {
        Ok(path) => {
            proof {
                lemma_parse_path_some_len(path_spec@);
            }
            let flag = crate::naming::make_cfg_enum(&path);
            Ok(require_for_item(store, &flag))
        },
        Err(e) => Err(e),
    }
}

/// Function-fallback gate on an enum-exists fact.
pub fn require_enum_or_fail(store: &FlagStore, path_spec: &str) -> (r: Result<
    FunctionGate,
    SpecError,
>)
    ensures
        (r is Ok) == (spec_parse_path(path_spec@) is Some),
        r is Ok ==> ({
            let segs = spec_parse_path(path_spec@).unwrap();
            &&& r->Ok_0.present == store@.contains(spec_decl_gate_flag(segs, "enum"@))
            &&& r->Ok_0.failure_message@ == "missing "@ + spec_render_path(segs)
        }),
        r is Err ==> r->Err_0.message@ == path_grammar_message(),
{
    match parse_symbol_path(path_spec) {
        Ok(path) => {
            proof {
                lemma_parse_path_some_len(path_spec@);
            }
            let flag = crate::naming::make_cfg_enum(&path);
            let description = describe_path(&path);
            Ok(require_for_function(store, &flag, description.as_str()))
        },
        Err(e) => Err(e),
    }
}

/// Item-mode gate on a function-exists fact.
pub fn require_function(store: &FlagStore, path_spec: &str) -> (r: Result<bool, SpecError>)
    ensures
        (r is Ok) == (spec_parse_path(path_spec@) is Some),
        r is Ok ==> r->Ok_0 == store@.contains(spec_decl_gate_flag(
            spec_parse_path(path_spec@).unwrap(),
            "fn"@,
        )),
        r is Err ==> r->Err_0.message@ == path_grammar_message(),
{
    match parse_symbol_path(path_spec) {
        Ok(path) => {
            proof {
                lemma_parse_path_some_len(path_spec@);
            }
            let flag = crate::naming::make_cfg_function(&path);
            Ok(require_for_item(store, &flag))
        },
        Err(e) => Err(e),
    }
}

/// Function-fallback gate on a function-exists fact.
pub fn require_function_or_fail(store: &FlagStore, path_spec: &str) -> (r: Result<
    FunctionGate,
    SpecError,
>)
    ensures
        (r is Ok) == (spec_parse_path(path_spec@) is Some),
        r is Ok ==> ({
            let segs = spec_parse_path(path_spec@).unwrap();
            &&& r->Ok_0.present == store@.contains(spec_decl_gate_flag(segs, "fn"@))
            &&& r->Ok_0.failure_message@ == "missing "@ + spec_render_path(segs)
        }),
        r is Err ==> r->Err_0.message@ == path_grammar_message(),
{
    match parse_symbol_path(path_spec) {
        Ok(path) => {
            proof {
                lemma_parse_path_some_len(path_spec@);
            }
            let flag = crate::naming::make_cfg_function(&path);
            let description = describe_path(&path);
            Ok(require_for_function(store, &flag, description.as_str()))
        },
        Err(e) => Err(e),
    }
}

/// Item-mode gate on a trait-impl relation fact.
pub fn require_impl_for_trait(store: &FlagStore, path_spec: &str) -> (r: Result<bool, SpecError>)
    ensures
        (r is Ok) == (spec_parse_path(path_spec@) is Some && spec_parse_path(
            path_spec@,
        ).unwrap().len() >= 2),
        r is Ok ==> r->Ok_0 == store@.contains(spec_impl_for_gate_flag(spec_parse_path(path_spec@).unwrap())),
        r is Err ==> (spec_parse_path(path_spec@) is None && r->Err_0.message@
            == path_grammar_message()) || (spec_parse_path(path_spec@) is Some
            && spec_parse_path(path_spec@).unwrap().len() < 2 && r->Err_0.message@
            == member_path_message()),
{
    match parse_symbol_path(path_spec) {
        Ok(path) => {
            if path.segments.len() < 2 {
                return Err(member_path_error());
            }
            let flag = crate::naming::make_cfg_impl_for_trait(&path);
            Ok(require_for_item(store, &flag))
        },
        Err(e) => Err(e),
    }
}

/// Function-fallback gate on a trait-impl relation fact.
pub fn require_impl_for_trait_or_fail(store: &FlagStore, path_spec: &str) -> (r: Result<
    FunctionGate,
    SpecError,
>)
    ensures
        (r is Ok) == (spec_parse_path(path_spec@) is Some && spec_parse_path(
            path_spec@,
        ).unwrap().len() >= 2),
        r is Ok ==> ({
            let segs = spec_parse_path(path_spec@).unwrap();
            &&& r->Ok_0.present == store@.contains(spec_impl_for_gate_flag(segs))
            &&& r->Ok_0.failure_message@ == "missing "@ + spec_render_path(segs)
        }),
        r is Err ==> (spec_parse_path(path_spec@) is None && r->Err_0.message@
            == path_grammar_message()) || (spec_parse_path(path_spec@) is Some
            && spec_parse_path(path_spec@).unwrap().len() < 2 && r->Err_0.message@
            == member_path_message()),
{
    match parse_symbol_path(path_spec) {
        Ok(path) => {
            if path.segments.len() < 2 {
                return Err(member_path_error());
            }
            let flag = crate::naming::make_cfg_impl_for_trait(&path);
            let description = describe_path(&path);
            Ok(require_for_function(store, &flag, description.as_str()))
        },
        Err(e) => Err(e),
    }
}

/// Item-mode gate on an inherent associated-function fact.
pub fn require_impl_function(store: &FlagStore, path_spec: &str) -> (r: Result<bool, SpecError>)
    ensures
        (r is Ok) == (spec_parse_path(path_spec@) is Some && spec_parse_path(
            path_spec@,
        ).unwrap().len() >= 2),
        r is Ok ==> r->Ok_0 == store@.contains(spec_member_gate_flag(spec_parse_path(path_spec@).unwrap(), "impl"@, "fn"@)),
        r is Err ==> (spec_parse_path(path_spec@) is None && r->Err_0.message@
            == path_grammar_message()) || (spec_parse_path(path_spec@) is Some
            && spec_parse_path(path_spec@).unwrap().len() < 2 && r->Err_0.message@
            == member_path_message()),
{
    match parse_symbol_path(path_spec) {
        Ok(path) => {
            if path.segments.len() < 2 {
                return Err(member_path_error());
            }
            let flag = crate::naming::make_cfg_impl_function(&path);
            Ok(require_for_item(store, &flag))
        },
        Err(e) => Err(e),
    }
}

/// Function-fallback gate on an inherent associated-function fact.
pub fn require_impl_function_or_fail(store: &FlagStore, path_spec: &str) -> (r: Result<
    FunctionGate,
    SpecError,
>)
    ensures
        (r is Ok) == (spec_parse_path(path_spec@) is Some && spec_parse_path(
            path_spec@,
        ).unwrap().len() >= 2),
        r is Ok ==> ({
            let segs = spec_parse_path(path_spec@).unwrap();
            &&& r->Ok_0.present == store@.contains(spec_member_gate_flag(segs, "impl"@, "fn"@))
            &&& r->Ok_0.failure_message@ == "missing "@ + spec_render_path(segs)
        }),
        r is Err ==> (spec_parse_path(path_spec@) is None && r->Err_0.message@
            == path_grammar_message()) || (spec_parse_path(path_spec@) is Some
            && spec_parse_path(path_spec@).unwrap().len() < 2 && r->Err_0.message@
            == member_path_message()),
{
    match parse_symbol_path(path_spec) {
        Ok(path) => {
            if path.segments.len() < 2 {
                return Err(member_path_error());
            }
            let flag = crate::naming::make_cfg_impl_function(&path);
            let description = describe_path(&path);
            Ok(require_for_function(store, &flag, description.as_str()))
        },
        Err(e) => Err(e),
    }
}

/// Item-mode gate on an inherent method fact.
pub fn require_impl_method(store: &FlagStore, path_spec: &str) -> (r: Result<bool, SpecError>)
    ensures
        (r is Ok) == (spec_parse_path(path_spec@) is Some && spec_parse_path(
            path_spec@,
        ).unwrap().len() >= 2),
        r is Ok ==> r->Ok_0 == store@.contains(spec_member_gate_flag(spec_parse_path(path_spec@).unwrap(), "impl"@, "method"@)),
        r is Err ==> (spec_parse_path(path_spec@) is None && r->Err_0.message@
            == path_grammar_message()) || (spec_parse_path(path_spec@) is Some
            && spec_parse_path(path_spec@).unwrap().len() < 2 && r->Err_0.message@
            == member_path_message()),
{
    match parse_symbol_path(path_spec) {
        Ok(path) => {
            if path.segments.len() < 2 {
                return Err(member_path_error());
            }
            let flag = crate::naming::make_cfg_impl_method(&path);
            Ok(require_for_item(store, &flag))
        },
        Err(e) => Err(e),
    }
}

/// Function-fallback gate on an inherent method fact.
pub fn require_impl_method_or_fail(store: &FlagStore, path_spec: &str) -> (r: Result<
    FunctionGate,
    SpecError,
>)
    ensures
        (r is Ok) == (spec_parse_path(path_spec@) is Some && spec_parse_path(
            path_spec@,
        ).unwrap().len() >= 2),
        r is Ok ==> ({
            let segs = spec_parse_path(path_spec@).unwrap();
            &&& r->Ok_0.present == store@.contains(spec_member_gate_flag(segs, "impl"@, "method"@))
            &&& r->Ok_0.failure_message@ == "missing "@ + spec_render_path(segs)
        }),
        r is Err ==> (spec_parse_path(path_spec@) is None && r->Err_0.message@
            == path_grammar_message()) || (spec_parse_path(path_spec@) is Some
            && spec_parse_path(path_spec@).unwrap().len() < 2 && r->Err_0.message@
            == member_path_message()),
{
    match parse_symbol_path(path_spec) {
        Ok(path) => {
            if path.segments.len() < 2 {
                return Err(member_path_error());
            }
            let flag = crate::naming::make_cfg_impl_method(&path);
            let description = describe_path(&path);
            Ok(require_for_function(store, &flag, description.as_str()))
        },
        Err(e) => Err(e),
    }
}

/// Item-mode gate on an inherent associated-constant fact.
pub fn require_impl_const(store: &FlagStore, path_spec: &str) -> (r: Result<bool, SpecError>)
    ensures
        (r is Ok) == (spec_parse_path(path_spec@) is Some && spec_parse_path(
            path_spec@,
        ).unwrap().len() >= 2),
        r is Ok ==> r->Ok_0 == store@.contains(spec_member_gate_flag(spec_parse_path(path_spec@).unwrap(), "impl"@, "const"@)),
        r is Err ==> (spec_parse_path(path_spec@) is None && r->Err_0.message@
            == path_grammar_message()) || (spec_parse_path(path_spec@) is Some
            && spec_parse_path(path_spec@).unwrap().len() < 2 && r->Err_0.message@
            == member_path_message()),
{
    match parse_symbol_path(path_spec) {
        Ok(path) => {
            if path.segments.len() < 2 {
                return Err(member_path_error());
            }
            let flag = crate::naming::make_cfg_impl_const(&path);
            Ok(require_for_item(store, &flag))
        },
        Err(e) => Err(e),
    }
}

/// Function-fallback gate on an inherent associated-constant fact.
pub fn require_impl_const_or_fail(store: &FlagStore, path_spec: &str) -> (r: Result<
    FunctionGate,
    SpecError,
>)
    ensures
        (r is Ok) == (spec_parse_path(path_spec@) is Some && spec_parse_path(
            path_spec@,
        ).unwrap().len() >= 2),
        r is Ok ==> ({
            let segs = spec_parse_path(path_spec@).unwrap();
            &&& r->Ok_0.present == store@.contains(spec_member_gate_flag(segs, "impl"@, "const"@))
            &&& r->Ok_0.failure_message@ == "missing "@ + spec_render_path(segs)
        }),
        r is Err ==> (spec_parse_path(path_spec@) is None && r->Err_0.message@
            == path_grammar_message()) || (spec_parse_path(path_spec@) is Some
            && spec_parse_path(path_spec@).unwrap().len() < 2 && r->Err_0.message@
            == member_path_message()),
{
    match parse_symbol_path(path_spec) {
        Ok(path) => {
            if path.segments.len() < 2 {
                return Err(member_path_error());
            }
            let flag = crate::naming::make_cfg_impl_const(&path);
            let description = describe_path(&path);
            Ok(require_for_function(store, &flag, description.as_str()))
        },
        Err(e) => Err(e),
    }
}

/// Item-mode gate on an inherent associated-type fact.
pub fn require_impl_type(store: &FlagStore, path_spec: &str) -> (r: Result<bool, SpecError>)
    ensures
        (r is Ok) == (spec_parse_path(path_spec@) is Some && spec_parse_path(
            path_spec@,
        ).unwrap().len() >= 2),
        r is Ok ==> r->Ok_0 == store@.contains(spec_member_gate_flag(spec_parse_path(path_spec@).unwrap(), "impl"@, "type"@)),
        r is Err ==> (spec_parse_path(path_spec@) is None && r->Err_0.message@
            == path_grammar_message()) || (spec_parse_path(path_spec@) is Some
            && spec_parse_path(path_spec@).unwrap().len() < 2 && r->Err_0.message@
            == member_path_message()),
{
    match parse_symbol_path(path_spec) {
        Ok(path) => {
            if path.segments.len() < 2 {
                return Err(member_path_error());
            }
            let flag = crate::naming::make_cfg_impl_type(&path);
            Ok(require_for_item(store, &flag))
        },
        Err(e) => Err(e),
    }
}

/// Function-fallback gate on an inherent associated-type fact.
pub fn require_impl_type_or_fail(store: &FlagStore, path_spec: &str) -> (r: Result<
    FunctionGate,
    SpecError,
>)
    ensures
        (r is Ok) == (spec_parse_path(path_spec@) is Some && spec_parse_path(
            path_spec@,
        ).unwrap().len() >= 2),
        r is Ok ==> ({
            let segs = spec_parse_path(path_spec@).unwrap();
            &&& r->Ok_0.present == store@.contains(spec_member_gate_flag(segs, "impl"@, "type"@))
            &&& r->Ok_0.failure_message@ == "missing "@ + spec_render_path(segs)
        }),
        r is Err ==> (spec_parse_path(path_spec@) is None && r->Err_0.message@
            == path_grammar_message()) || (spec_parse_path(path_spec@) is Some
            && spec_parse_path(path_spec@).unwrap().len() < 2 && r->Err_0.message@
            == member_path_message()),
{
    match parse_symbol_path(path_spec) {
        Ok(path) => {
            if path.segments.len() < 2 {
                return Err(member_path_error());
            }
            let flag = crate::naming::make_cfg_impl_type(&path);
            let description = describe_path(&path);
            Ok(require_for_function(store, &flag, description.as_str()))
        },
        Err(e) => Err(e),
    }
}

/// Item-mode gate on a trait associated-function fact.
pub fn require_trait_function(store: &FlagStore, path_spec: &str) -> (r: Result<bool, SpecError>)
    ensures
        (r is Ok) == (spec_parse_path(path_spec@) is Some && spec_parse_path(
            path_spec@,
        ).unwrap().len() >= 2),
        r is Ok ==> r->Ok_0 == store@.contains(spec_member_gate_flag(spec_parse_path(path_spec@).unwrap(), "trait"@, "fn"@)),
        r is Err ==> (spec_parse_path(path_spec@) is None && r->Err_0.message@
            == path_grammar_message()) || (spec_parse_path(path_spec@) is Some
            && spec_parse_path(path_spec@).unwrap().len() < 2 && r->Err_0.message@
            == member_path_message()),
{
    match parse_symbol_path(path_spec) {
        Ok(path) => {
            if path.segments.len() < 2 {
                return Err(member_path_error());
            }
            let flag = crate::naming::make_cfg_trait_function(&path);
            Ok(require_for_item(store, &flag))
        },
        Err(e) => Err(e),
    }
}

/// Function-fallback gate on a trait associated-function fact.
pub fn require_trait_function_or_fail(store: &FlagStore, path_spec: &str) -> (r: Result<
    FunctionGate,
    SpecError,
>)
    ensures
        (r is Ok) == (spec_parse_path(path_spec@) is Some && spec_parse_path(
            path_spec@,
        ).unwrap().len() >= 2),
        r is Ok ==> ({
            let segs = spec_parse_path(path_spec@).unwrap();
            &&& r->Ok_0.present == store@.contains(spec_member_gate_flag(segs, "trait"@, "fn"@))
            &&& r->Ok_0.failure_message@ == "missing "@ + spec_render_path(segs)
        }),
        r is Err ==> (spec_parse_path(path_spec@) is None && r->Err_0.message@
            == path_grammar_message()) || (spec_parse_path(path_spec@) is Some
            && spec_parse_path(path_spec@).unwrap().len() < 2 && r->Err_0.message@
            == member_path_message()),
{
    match parse_symbol_path(path_spec) {
        Ok(path) => {
            if path.segments.len() < 2 {
                return Err(member_path_error());
            }
            let flag = crate::naming::make_cfg_trait_function(&path);
            let description = describe_path(&path);
            Ok(require_for_function(store, &flag, description.as_str()))
        },
        Err(e) => Err(e),
    }
}

/// Item-mode gate on a trait method fact.
pub fn require_trait_method(store: &FlagStore, path_spec: &str) -> (r: Result<bool, SpecError>)
    ensures
        (r is Ok) == (spec_parse_path(path_spec@) is Some && spec_parse_path(
            path_spec@,
        ).unwrap().len() >= 2),
        r is Ok ==> r->Ok_0 == store@.contains(spec_member_gate_flag(spec_parse_path(path_spec@).unwrap(), "trait"@, "method"@)),
        r is Err ==> (spec_parse_path(path_spec@) is None && r->Err_0.message@
            == path_grammar_message()) || (spec_parse_path(path_spec@) is Some
            && spec_parse_path(path_spec@).unwrap().len() < 2 && r->Err_0.message@
            == member_path_message()),
{
    match parse_symbol_path(path_spec) {
        Ok(path) => {
            if path.segments.len() < 2 {
                return Err(member_path_error());
            }
            let flag = crate::naming::make_cfg_trait_method(&path);
            Ok(require_for_item(store, &flag))
        },
        Err(e) => Err(e),
    }
}

/// Function-fallback gate on a trait method fact.
pub fn require_trait_method_or_fail(store: &FlagStore, path_spec: &str) -> (r: Result<
    FunctionGate,
    SpecError,
>)
    ensures
        (r is Ok) == (spec_parse_path(path_spec@) is Some && spec_parse_path(
            path_spec@,
        ).unwrap().len() >= 2),
        r is Ok ==> ({
            let segs = spec_parse_path(path_spec@).unwrap();
            &&& r->Ok_0.present == store@.contains(spec_member_gate_flag(segs, "trait"@, "method"@))
            &&& r->Ok_0.failure_message@ == "missing "@ + spec_render_path(segs)
        }),
        r is Err ==> (spec_parse_path(path_spec@) is None && r->Err_0.message@
            == path_grammar_message()) || (spec_parse_path(path_spec@) is Some
            && spec_parse_path(path_spec@).unwrap().len() < 2 && r->Err_0.message@
            == member_path_message()),
{
    match parse_symbol_path(path_spec) {
        Ok(path) => {
            if path.segments.len() < 2 {
                return Err(member_path_error());
            }
            let flag = crate::naming::make_cfg_trait_method(&path);
            let description = describe_path(&path);
            Ok(require_for_function(store, &flag, description.as_str()))
        },
        Err(e) => Err(e),
    }
}

/// Item-mode gate on a trait associated-constant fact.
pub fn require_trait_const(store: &FlagStore, path_spec: &str) -> (r: Result<bool, SpecError>)
    ensures
        (r is Ok) == (spec_parse_path(path_spec@) is Some && spec_parse_path(
            path_spec@,
        ).unwrap().len() >= 2),
        r is Ok ==> r->Ok_0 == store@.contains(spec_member_gate_flag(spec_parse_path(path_spec@).unwrap(), "trait"@, "const"@)),
        r is Err ==> (spec_parse_path(path_spec@) is None && r->Err_0.message@
            == path_grammar_message()) || (spec_parse_path(path_spec@) is Some
            && spec_parse_path(path_spec@).unwrap().len() < 2 && r->Err_0.message@
            == member_path_message()),
{
    match parse_symbol_path(path_spec) {
        Ok(path) => {
            if path.segments.len() < 2 {
                return Err(member_path_error());
            }
            let flag = crate::naming::make_cfg_trait_const(&path);
            Ok(require_for_item(store, &flag))
        },
        Err(e) => Err(e),
    }
}

/// Function-fallback gate on a trait associated-constant fact.
pub fn require_trait_const_or_fail(store: &FlagStore, path_spec: &str) -> (r: Result<
    FunctionGate,
    SpecError,
>)
    ensures
        (r is Ok) == (spec_parse_path(path_spec@) is Some && spec_parse_path(
            path_spec@,
        ).unwrap().len() >= 2),
        r is Ok ==> ({
            let segs = spec_parse_path(path_spec@).unwrap();
            &&& r->Ok_0.present == store@.contains(spec_member_gate_flag(segs, "trait"@, "const"@))
            &&& r->Ok_0.failure_message@ == "missing "@ + spec_render_path(segs)
        }),
        r is Err ==> (spec_parse_path(path_spec@) is None && r->Err_0.message@
            == path_grammar_message()) || (spec_parse_path(path_spec@) is Some
            && spec_parse_path(path_spec@).unwrap().len() < 2 && r->Err_0.message@
            == member_path_message()),
{
    match parse_symbol_path(path_spec) {
        Ok(path) => {
            if path.segments.len() < 2 {
                return Err(member_path_error());
            }
            let flag = crate::naming::make_cfg_trait_const(&path);
            let description = describe_path(&path);
            Ok(require_for_function(store, &flag, description.as_str()))
        },
        Err(e) => Err(e),
    }
}

/// Item-mode gate on a trait associated-type fact.
pub fn require_trait_type(store: &FlagStore, path_spec: &str) -> (r: Result<bool, SpecError>)
    ensures
        (r is Ok) == (spec_parse_path(path_spec@) is Some && spec_parse_path(
            path_spec@,
        ).unwrap().len() >= 2),
        r is Ok ==> r->Ok_0 == store@.contains(spec_member_gate_flag(spec_parse_path(path_spec@).unwrap(), "trait"@, "type"@)),
        r is Err ==> (spec_parse_path(path_spec@) is None && r->Err_0.message@
            == path_grammar_message()) || (spec_parse_path(path_spec@) is Some
            && spec_parse_path(path_spec@).unwrap().len() < 2 && r->Err_0.message@
            == member_path_message()),
{
    match parse_symbol_path(path_spec) {
        Ok(path) => {
            if path.segments.len() < 2 {
                return Err(member_path_error());
            }
            let flag = crate::naming::make_cfg_trait_type(&path);
            Ok(require_for_item(store, &flag))
        },
        Err(e) => Err(e),
    }
}

/// Function-fallback gate on a trait associated-type fact.
pub fn require_trait_type_or_fail(store: &FlagStore, path_spec: &str) -> (r: Result<
    FunctionGate,
    SpecError,
>)
    ensures
        (r is Ok) == (spec_parse_path(path_spec@) is Some && spec_parse_path(
            path_spec@,
        ).unwrap().len() >= 2),
        r is Ok ==> ({
            let segs = spec_parse_path(path_spec@).unwrap();
            &&& r->Ok_0.present == store@.contains(spec_member_gate_flag(segs, "trait"@, "type"@))
            &&& r->Ok_0.failure_message@ == "missing "@ + spec_render_path(segs)
        }),
        r is Err ==> (spec_parse_path(path_spec@) is None && r->Err_0.message@
            == path_grammar_message()) || (spec_parse_path(path_spec@) is Some
            && spec_parse_path(path_spec@).unwrap().len() < 2 && r->Err_0.message@
            == member_path_message()),
{
    match parse_symbol_path(path_spec) {
        Ok(path) => {
            if path.segments.len() < 2 {
                return Err(member_path_error());
            }
            let flag = crate::naming::make_cfg_trait_type(&path);
            let description = describe_path(&path);
            Ok(require_for_function(store, &flag, description.as_str()))
        },
        Err(e) => Err(e),
    }
}

/// Item-mode gate on a supertype-relation fact, from a two-part
/// specification.
pub fn require_trait_supertrait(store: &FlagStore, pair_spec: &str) -> (r: Result<
    bool,
    SpecError,
>)
    ensures
        (r is Ok) == (spec_parse_supertrait(pair_spec@) is Some),
        r is Ok ==> r->Ok_0 == store@.contains(crate::naming::spec_supertrait_flag(
            spec_parse_supertrait(pair_spec@).unwrap(),
        )),
        r is Err ==> r->Err_0.message@ == pair_grammar_message(),
{
    match parse_supertrait_spec(pair_spec) {
        Ok(st) => {
            let flag = crate::naming::make_cfg_trait_supertrait(&st);
            Ok(require_for_item(store, &flag))
        },
        Err(e) => Err(e),
    }
}

/// Function-fallback gate on a supertype-relation fact.
pub fn require_trait_supertrait_or_fail(store: &FlagStore, pair_spec: &str) -> (r: Result<
    FunctionGate,
    SpecError,
>)
    ensures
        (r is Ok) == (spec_parse_supertrait(pair_spec@) is Some),
        r is Ok ==> ({
            let st = spec_parse_supertrait(pair_spec@).unwrap();
            &&& r->Ok_0.present == store@.contains(crate::naming::spec_supertrait_flag(st))
            &&& r->Ok_0.failure_message@ == "missing "@ + spec_describe_supertrait(st)
        }),
        r is Err ==> r->Err_0.message@ == pair_grammar_message(),
{
    match parse_supertrait_spec(pair_spec) {
        Ok(st) => {
            let flag = crate::naming::make_cfg_trait_supertrait(&st);
            let description = describe_supertrait(&st);
            Ok(require_for_function(store, &flag, description.as_str()))
        },
        Err(e) => Err(e),
    }
}

} // verus!
