//! Text normalization: entity/break substitution, whitespace collapsing
//! and trimming, exactly as the extractor applies them to cell contents.

use vstd::prelude::*;

verus! {

/// The whitespace characters recognized by normalization: the Unicode
/// `White_Space` set, the one that both trimming and run-collapsing use.
pub open spec fn is_space(c: char) -> bool {
    ||| c == ' '
    ||| c == '\t'
    ||| c == '\n'
    ||| c == '\u{0B}'
    ||| c == '\u{0C}'
    ||| c == '\r'
    ||| c == '\u{85}'
    ||| c == '\u{A0}'
    ||| c == '\u{1680}'
    ||| (0x2000 <= c as u32 && c as u32 <= 0x200A)
    ||| c == '\u{2028}'
    ||| c == '\u{2029}'
    ||| c == '\u{202F}'
    ||| c == '\u{205F}'
    ||| c == '\u{3000}'
}

/// Runtime test for [`is_space`].
pub fn is_space_char(c: char) -> (r: bool)
    ensures
        r == is_space(c),
{
    c == ' ' || c == '\t' || c == '\n' || c == '\u{0B}' || c == '\u{0C}' || c == '\r'
        || c == '\u{85}' || c == '\u{A0}' || c == '\u{1680}'
        || (0x2000 <= c as u32 && c as u32 <= 0x200A) || c == '\u{2028}' || c == '\u{2029}'
        || c == '\u{202F}' || c == '\u{205F}' || c == '\u{3000}'
}

/// Leftmost, non-overlapping replacement of every occurrence of `pat`
/// by `rep`, scanning left to right.
pub open spec fn replace_sp(s: Seq<char>, pat: Seq<char>, rep: Seq<char>) -> Seq<char>
    decreases s.len(),
{
    if pat.len() == 0 || s.len() < pat.len() {
        s
    } else if s.take(pat.len() as int) == pat {
        rep + replace_sp(s.skip(pat.len() as int), pat, rep)
    } else {
        seq![s[0]] + replace_sp(s.skip(1), pat, rep)
    }
}

/// Does `pat` occur in `s` starting at position `i`?
fn matches_at(s: &Vec<char>, pat: &Vec<char>, i: usize) -> (r: bool)
    requires
        i <= s@.len(),
    ensures
        r == (i + pat@.len() <= s@.len() && s@.subrange(i as int, i + pat@.len()) == pat@),
{
    if pat.len() > s.len() - i {
        return false;
    }
    let mut j: usize = 0;
    while j < pat.len()
        invariant
            j <= pat@.len(),
            i + pat@.len() <= s@.len(),
            s@.len() <= usize::MAX,
            forall|k: int| 0 <= k < j ==> s@[i + k] == pat@[k],
        decreases pat@.len() - j,
    {
        if s[i + j] != pat[j] {
            proof {
                assert(s@.subrange(i as int, i + pat@.len()) != pat@) by {
                    assert(s@.subrange(i as int, i + pat@.len())[j as int] == s@[i + j]);
                }
            }
            return false;
        }
        j += 1;
    }
    proof {
        assert(s@.subrange(i as int, i + pat@.len()) =~= pat@);
    }
    true
}

/// Replace every leftmost, non-overlapping occurrence of `pat` in `s`
/// by `rep`, as [`replace_sp`] states.
pub fn replace_chars(s: &Vec<char>, pat: &Vec<char>, rep: &Vec<char>) -> (r: Vec<char>)
    requires
        pat@.len() > 0,
    ensures
        r@ == replace_sp(s@, pat@, rep@),
{
    let mut out: Vec<char> = Vec::new();
    let mut i: usize = 0;
    proof {
        assert(s@.skip(0) =~= s@);
        assert(out@ + replace_sp(s@, pat@, rep@) =~= replace_sp(s@, pat@, rep@));
    }
    let n: usize = s.len();
    while i < n
        invariant
            i <= n,
            n == s@.len(),
            pat@.len() > 0,
            replace_sp(s@, pat@, rep@) == out@ + replace_sp(s@.skip(i as int), pat@, rep@),
        decreases n - i,
    {
        let ghost p = pat@.len() as int;
        if matches_at(s, pat, i) {
            proof {
                assert(s@.skip(i as int).take(p) =~= s@.subrange(i as int, i + p));
                assert(s@.skip(i as int).skip(p) =~= s@.skip(i + p));
                assert(replace_sp(s@.skip(i as int), pat@, rep@) == rep@ + replace_sp(
                    s@.skip(i + p),
                    pat@,
                    rep@,
                ));
                assert((out@ + rep@) + replace_sp(s@.skip(i + p), pat@, rep@) =~= out@ + (rep@
                    + replace_sp(s@.skip(i + p), pat@, rep@)));
            }
            out.extend_from_slice(rep.as_slice());
            i = i + pat.len();
        } else {
            proof {
                let tail = s@.skip(i as int);
                assert(tail[0] == s@[i as int]);
                assert(tail.skip(1) =~= s@.skip(i as int + 1));
                if tail.len() >= p {
                    assert(tail.take(p) =~= s@.subrange(i as int, i + p));
                    assert(replace_sp(tail, pat@, rep@) == seq![s@[i as int]] + replace_sp(
                        s@.skip(i as int + 1),
                        pat@,
                        rep@,
                    ));
                } else {
                    assert(tail =~= seq![s@[i as int]] + s@.skip(i as int + 1));
                    assert(replace_sp(tail, pat@, rep@) == seq![s@[i as int]] + replace_sp(
                        s@.skip(i as int + 1),
                        pat@,
                        rep@,
                    ));
                }
                assert((out@ + seq![s@[i as int]]) + replace_sp(s@.skip(i as int + 1), pat@, rep@)
                    =~= out@ + (seq![s@[i as int]] + replace_sp(s@.skip(i as int + 1), pat@, rep@)));
                assert(out@.push(s@[i as int]) =~= out@ + seq![s@[i as int]]);
            }
            out.push(s[i]);
            i = i + 1;
        }
    }
    proof {
        assert(s@.skip(i as int) =~= Seq::<char>::empty());
        assert(out@ + replace_sp(s@.skip(i as int), pat@, rep@) =~= out@);
    }
    out
}

/// Collapse every run of whitespace into one single plain space,
/// scanning left to right.
pub open spec fn collapse_sp(s: Seq<char>) -> Seq<char>
    decreases s.len(),
{
    if s.len() == 0 {
        Seq::empty()
    } else {
        let rest = collapse_sp(s.drop_last());
        if is_space(s.last()) {
            if rest.len() > 0 && rest.last() == ' ' {
                rest
            } else {
                rest.push(' ')
            }
        } else {
            rest.push(s.last())
        }
    }
}

/// Collapse whitespace runs of `s` to single spaces, as [`collapse_sp`] states.
pub fn collapse_chars(s: &Vec<char>) -> (r: Vec<char>)
    ensures
        r@ == collapse_sp(s@),
{
    let mut out: Vec<char> = Vec::new();
    let mut i: usize = 0;
    while i < s.len()
        invariant
            i <= s@.len(),
            out@ == collapse_sp(s@.take(i as int)),
        decreases s@.len() - i,
    {
        proof {
            assert(s@.take(i as int + 1).drop_last() =~= s@.take(i as int));
            assert(s@.take(i as int + 1).last() == s@[i as int]);
        }
        let c = s[i];
        if is_space_char(c) {
            if out.len() > 0 && out[out.len() - 1] == ' ' {
                // the run is already represented by one space
            } else {
                out.push(' ');
            }
        } else {
            out.push(c);
        }
        i = i + 1;
    }
    proof {
        assert(s@.take(i as int) =~= s@);
    }
    out
}

/// Drop leading whitespace.
pub open spec fn trim_front_sp(s: Seq<char>) -> Seq<char>
    decreases s.len(),
{
    if s.len() > 0 && is_space(s[0]) {
        trim_front_sp(s.drop_first())
    } else {
        s
    }
}

/// Drop trailing whitespace.
pub open spec fn trim_back_sp(s: Seq<char>) -> Seq<char>
    decreases s.len(),
{
    if s.len() > 0 && is_space(s.last()) {
        trim_back_sp(s.drop_last())
    } else {
        s
    }
}

/// Drop leading and trailing whitespace.
pub open spec fn trim_sp(s: Seq<char>) -> Seq<char> {
    trim_back_sp(trim_front_sp(s))
}

/// Trim whitespace from both ends of `s`, as [`trim_sp`] states.
pub fn trim_chars(s: &Vec<char>) -> (r: Vec<char>)
    ensures
        r@ == trim_sp(s@),
{
    let mut lo: usize = 0;
    proof {
        assert(s@.skip(0) =~= s@);
    }
    while lo < s.len() && is_space_char(s[lo])
        invariant
            lo <= s@.len(),
            trim_front_sp(s@) == trim_front_sp(s@.skip(lo as int)),
        decreases s@.len() - lo,
    {
        proof {
            assert(s@.skip(lo as int)[0] == s@[lo as int]);
            assert(s@.skip(lo as int).drop_first() =~= s@.skip(lo as int + 1));
        }
        lo = lo + 1;
    }
    proof {
        assert(trim_front_sp(s@) == s@.skip(lo as int));
    }
    let mut hi: usize = s.len();
    proof {
        assert(s@.subrange(lo as int, hi as int) =~= s@.skip(lo as int));
    }
    while hi > lo && is_space_char(s[hi - 1])
        invariant
            lo <= hi <= s@.len(),
            trim_back_sp(s@.skip(lo as int)) == trim_back_sp(s@.subrange(lo as int, hi as int)),
        decreases hi,
    {
        proof {
            assert(s@.subrange(lo as int, hi as int).last() == s@[hi - 1]);
            assert(s@.subrange(lo as int, hi as int).drop_last() =~= s@.subrange(
                lo as int,
                hi as int - 1,
            ));
        }
        hi = hi - 1;
    }
    proof {
        assert(trim_back_sp(s@.subrange(lo as int, hi as int)) == s@.subrange(lo as int, hi as int));
    }
    let mut out: Vec<char> = Vec::new();
    let mut k: usize = lo;
    proof {
        assert(s@.subrange(lo as int, lo as int) =~= Seq::<char>::empty());
    }
    while k < hi
        invariant
            lo <= k <= hi <= s@.len(),
            out@ == s@.subrange(lo as int, k as int),
        decreases hi - k,
    {
        proof {
            assert(s@.subrange(lo as int, k as int + 1) =~= s@.subrange(lo as int, k as int).push(
                s@[k as int],
            ));
        }
        out.push(s[k]);
        k = k + 1;
    }
    out
}

/// The literal line-break tag that normalization turns into a space.
pub open spec fn br_pat() -> Seq<char> {
    seq!['<', 'b', 'r', '>']
}

/// The ampersand entity.
pub open spec fn amp_pat() -> Seq<char> {
    seq!['&', 'a', 'm', 'p', ';']
}

/// The non-breaking-space entity.
pub open spec fn nbsp_pat() -> Seq<char> {
    seq!['&', 'n', 'b', 's', 'p', ';']
}

/// The entity/break substitution pass: `<br>` becomes a single space,
/// `&amp;` becomes `&`, and `&nbsp;` becomes a single space, in that order.
pub open spec fn entity_decoded(s: Seq<char>) -> Seq<char> {
    replace_sp(
        replace_sp(replace_sp(s, br_pat(), seq![' ']), amp_pat(), seq!['&']),
        nbsp_pat(),
        seq![' '],
    )
}

/// Normalization applied to an entity name: the entity/break pass, then a trim.
pub open spec fn norm_name(s: Seq<char>) -> Seq<char> {
    trim_sp(entity_decoded(s))
}

/// Normalization applied to a data cell: the entity/break pass, then
/// whitespace-run collapsing, then a trim.
pub open spec fn norm_cell(s: Seq<char>) -> Seq<char> {
    trim_sp(collapse_sp(entity_decoded(s)))
}

fn br_pattern() -> (r: Vec<char>)
    ensures
        r@ == br_pat(),
{
    let mut v: Vec<char> = Vec::new();
    v.push('<');
    v.push('b');
    v.push('r');
    v.push('>');
    proof {
        assert(v@ =~= br_pat());
    }
    v
}

fn amp_pattern() -> (r: Vec<char>)
    ensures
        r@ == amp_pat(),
{
    let mut v: Vec<char> = Vec::new();
    v.push('&');
    v.push('a');
    v.push('m');
    v.push('p');
    v.push(';');
    proof {
        assert(v@ =~= amp_pat());
    }
    v
}

fn nbsp_pattern() -> (r: Vec<char>)
    ensures
        r@ == nbsp_pat(),
{
    let mut v: Vec<char> = Vec::new();
    v.push('&');
    v.push('n');
    v.push('b');
    v.push('s');
    v.push('p');
    v.push(';');
    proof {
        assert(v@ =~= nbsp_pat());
    }
    v
}

fn single(c: char) -> (r: Vec<char>)
    ensures
        r@ == seq![c],
{
    let mut v: Vec<char> = Vec::new();
    v.push(c);
    proof {
        assert(v@ =~= seq![c]);
    }
    v
}

/// Relies on `str::chars`: it yields the characters of the string, in order.
#[verifier::external_body]
fn chars_of(s: &str) -> (r: Vec<char>)
    ensures
        r@ == s@,
{
    s.chars().collect()
}

/// Relies on `String`'s `FromIterator<char>` impl: collecting characters
/// concatenates them, in order, into one string.
#[verifier::external_body]
fn string_of(cs: Vec<char>) -> (r: String)
    ensures
        r@ == cs@,
{
    cs.into_iter().collect()
}

fn decode_chars(cs: &Vec<char>) -> (r: Vec<char>)
    ensures
        r@ == entity_decoded(cs@),
{
    let br = br_pattern();
    let amp = amp_pattern();
    let nbsp = nbsp_pattern();
    let space = single(' ');
    let amp_char = single('&');
    let t1 = replace_chars(cs, &br, &space);
    let t2 = replace_chars(&t1, &amp, &amp_char);
    replace_chars(&t2, &nbsp, &space)
}

/// Normalize an entity name: substitute breaks and entities, then trim.
pub fn normalize_name(s: &str) -> (r: String)
    ensures
        r@ == norm_name(s@),
{
    let cs = chars_of(s);
    let d = decode_chars(&cs);
    let t = trim_chars(&d);
    string_of(t)
}

/// Normalize a data cell: substitute breaks and entities, collapse every
/// whitespace run to one space, then trim.
pub fn normalize_cell(s: &str) -> (r: String)
    ensures
        r@ == norm_cell(s@),
{
    let cs = chars_of(s);
    let d = decode_chars(&cs);
    let c = collapse_chars(&d);
    let t = trim_chars(&c);
    string_of(t)
}

/// Trim leading and trailing whitespace, as header year labels are trimmed.
pub fn trim_text(s: &str) -> (r: String)
    ensures
        r@ == trim_sp(s@),
{
    let cs = chars_of(s);
    let t = trim_chars(&cs);
    string_of(t)
}

/// Whitespace-canonical form: every whitespace character is the plain
/// space, and no two whitespace characters are adjacent.
pub open spec fn ws_canonical(s: Seq<char>) -> bool {
    &&& forall|i: int| 0 <= i < s.len() && is_space(#[trigger] s[i]) ==> s[i] == ' '
    &&& forall|i: int| 0 <= i < s.len() - 1 && is_space(#[trigger] s[i]) ==> !is_space(s[i + 1])
}

/// Collapsing leaves every string whitespace-canonical.
pub proof fn lemma_collapse_canonical(s: Seq<char>)
    ensures
        ws_canonical(collapse_sp(s)),
    decreases s.len(),
{
    if s.len() > 0 {
        lemma_collapse_canonical(s.drop_last());
        let rest = collapse_sp(s.drop_last());
        let t = collapse_sp(s);
        if is_space(s.last()) {
            if rest.len() > 0 && rest.last() == ' ' {
                assert(t == rest);
            } else {
                assert(t == rest.push(' '));
                if rest.len() > 0 {
                    assert(!is_space(rest[rest.len() - 1]));
                }
            }
        } else {
            assert(t == rest.push(s.last()));
        }
    }
}

/// Collapsing a whitespace-canonical string is a no-op.
pub proof fn lemma_collapse_identity(s: Seq<char>)
    requires
        ws_canonical(s),
    ensures
        collapse_sp(s) == s,
    decreases s.len(),
{
    if s.len() == 0 {
        assert(collapse_sp(s) =~= s);
    } else {
        assert(ws_canonical(s.drop_last())) by {
            assert(forall|i: int|
                0 <= i < s.drop_last().len() ==> s.drop_last()[i] == s[i]);
        }
        lemma_collapse_identity(s.drop_last());
        if is_space(s.last()) {
            assert(s.last() == ' ') by {
                assert(s[s.len() - 1] == s.last());
            }
            if s.len() > 1 {
                assert(!is_space(s[s.len() - 2]));
                assert(s.drop_last().last() == s[s.len() - 2]);
            }
            assert(collapse_sp(s) == s.drop_last().push(' '));
        }
        assert(s.drop_last().push(s.last()) =~= s);
    }
}

/// What `trim_back_sp` keeps is a prefix of its argument.
proof fn lemma_trim_back_prefix(s: Seq<char>)
    ensures
        trim_back_sp(s).len() <= s.len(),
        trim_back_sp(s) == s.take(trim_back_sp(s).len() as int),
    decreases s.len(),
{
    if s.len() > 0 && is_space(s.last()) {
        lemma_trim_back_prefix(s.drop_last());
        assert(s.drop_last().take(trim_back_sp(s).len() as int) =~= s.take(
            trim_back_sp(s).len() as int,
        ));
    } else {
        assert(s.take(s.len() as int) =~= s);
    }
}

/// What `trim_front_sp` keeps is a suffix of its argument.
proof fn lemma_trim_front_suffix(s: Seq<char>)
    ensures
        trim_front_sp(s).len() <= s.len(),
        trim_front_sp(s) == s.skip(s.len() - trim_front_sp(s).len()),
    decreases s.len(),
{
    if s.len() > 0 && is_space(s[0]) {
        lemma_trim_front_suffix(s.drop_first());
        assert(s.drop_first().skip(s.drop_first().len() - trim_front_sp(s).len()) =~= s.skip(
            s.len() - trim_front_sp(s).len(),
        ));
    } else {
        assert(s.skip(0) =~= s);
    }
}

proof fn lemma_trim_front_no_lead(s: Seq<char>)
    ensures
        trim_front_sp(s).len() > 0 ==> !is_space(trim_front_sp(s)[0]),
    decreases s.len(),
{
    if s.len() > 0 && is_space(s[0]) {
        lemma_trim_front_no_lead(s.drop_first());
    }
}

proof fn lemma_trim_back_no_trail(s: Seq<char>)
    ensures
        trim_back_sp(s).len() > 0 ==> !is_space(trim_back_sp(s).last()),
    decreases s.len(),
{
    if s.len() > 0 && is_space(s.last()) {
        lemma_trim_back_no_trail(s.drop_last());
    }
}

/// The trimmed string carries no leading and no trailing whitespace:
/// the trim really removes all edge whitespace.
pub proof fn lemma_trim_no_edge_ws(s: Seq<char>)
    ensures
        trim_sp(s).len() > 0 ==> !is_space(trim_sp(s)[0]),
        trim_sp(s).len() > 0 ==> !is_space(trim_sp(s).last()),
{
    let f = trim_front_sp(s);
    lemma_trim_front_no_lead(s);
    lemma_trim_back_no_trail(f);
    lemma_trim_back_prefix(f);
    if trim_sp(s).len() > 0 {
        assert(trim_sp(s)[0] == f[0]);
    }
}

/// Trimming a string with no edge whitespace is a no-op.
pub proof fn lemma_trim_identity(s: Seq<char>)
    requires
        s.len() == 0 || (!is_space(s[0]) && !is_space(s.last())),
    ensures
        trim_sp(s) == s,
{
    assert(trim_front_sp(s) == s);
    assert(trim_back_sp(s) == s);
}

/// A subrange of a whitespace-canonical string is whitespace-canonical.
proof fn lemma_canonical_subrange(s: Seq<char>, a: int, b: int)
    requires
        ws_canonical(s),
        0 <= a <= b <= s.len(),
    ensures
        ws_canonical(s.subrange(a, b)),
{
    let t = s.subrange(a, b);
    assert(forall|i: int| 0 <= i < t.len() ==> t[i] == s[a + i]);
}

/// Trimming keeps a whitespace-canonical string canonical.
proof fn lemma_trim_canonical(s: Seq<char>)
    requires
        ws_canonical(s),
    ensures
        ws_canonical(trim_sp(s)),
{
    let f = trim_front_sp(s);
    lemma_trim_front_suffix(s);
    lemma_trim_back_prefix(f);
    lemma_canonical_subrange(s, s.len() - f.len(), s.len() as int);
    assert(f == s.subrange(s.len() - f.len(), s.len() as int));
    let t = trim_back_sp(f);
    lemma_canonical_subrange(f, 0, t.len() as int);
    assert(t == f.subrange(0, t.len() as int));
}

/// `pat` occurs nowhere in `s`.
pub open spec fn no_occurrence(s: Seq<char>, pat: Seq<char>) -> bool {
    forall|i: int| 0 <= i <= s.len() - pat.len() ==> #[trigger] s.subrange(i, i + pat.len()) != pat
}

/// Replacing a pattern that occurs nowhere is a no-op.
pub proof fn lemma_replace_absent(s: Seq<char>, pat: Seq<char>, rep: Seq<char>)
    requires
        pat.len() > 0,
        no_occurrence(s, pat),
    ensures
        replace_sp(s, pat, rep) == s,
    decreases s.len(),
{
    if s.len() >= pat.len() {
        let z: int = 0;
        assert(s.subrange(z, z + pat.len()) != pat);
        assert(s.take(pat.len() as int) == s.subrange(z, z + pat.len()));
        assert(no_occurrence(s.skip(1), pat)) by {
            assert forall|i: int|
                0 <= i <= s.skip(1).len() - pat.len() implies #[trigger] s.skip(1).subrange(
                i,
                i + pat.len(),
            ) != pat by {
                assert(s.skip(1).subrange(i, i + pat.len()) =~= s.subrange(
                    i + 1,
                    i + 1 + pat.len(),
                ));
            }
        }
        lemma_replace_absent(s.skip(1), pat, rep);
        assert(seq![s[0]] + s.skip(1) =~= s);
    }
}

/// The entity pass is a no-op exactly where no substitution target is
/// left in the string.
pub proof fn lemma_entity_decoded_absent(s: Seq<char>)
    requires
        no_occurrence(s, br_pat()),
        no_occurrence(s, amp_pat()),
        no_occurrence(s, nbsp_pat()),
    ensures
        entity_decoded(s) == s,
{
    lemma_replace_absent(s, br_pat(), seq![' ']);
    lemma_replace_absent(s, amp_pat(), seq!['&']);
    lemma_replace_absent(s, nbsp_pat(), seq![' ']);
}

/// Idempotence of name normalization: on a normalized name whose entity
/// pass is spent (no substitution target remains), normalizing again is a
/// no-op.
pub proof fn lemma_norm_name_idempotent(s: Seq<char>)
    requires
        entity_decoded(norm_name(s)) == norm_name(s),
    ensures
        norm_name(norm_name(s)) == norm_name(s),
{
    let t = norm_name(s);
    lemma_trim_no_edge_ws(entity_decoded(s));
    lemma_trim_identity(t);
}

/// Idempotence of cell normalization: on a normalized cell whose entity
/// pass is spent (no substitution target remains), normalizing again is a
/// no-op.
pub proof fn lemma_norm_cell_idempotent(s: Seq<char>)
    requires
        entity_decoded(norm_cell(s)) == norm_cell(s),
    ensures
        norm_cell(norm_cell(s)) == norm_cell(s),
{
    let c = collapse_sp(entity_decoded(s));
    let t = norm_cell(s);
    lemma_collapse_canonical(entity_decoded(s));
    lemma_trim_canonical(c);
    lemma_trim_no_edge_ws(c);
    lemma_collapse_identity(t);
    lemma_trim_identity(t);
}

/// A nonempty run of nothing but whitespace collapses to one single space.
pub proof fn lemma_collapse_ws_run(s: Seq<char>)
    requires
        s.len() > 0,
        forall|i: int| 0 <= i < s.len() ==> is_space(#[trigger] s[i]),
    ensures
        collapse_sp(s) == seq![' '],
    decreases s.len(),
{
    if s.len() == 1 {
        assert(collapse_sp(s.drop_last()) =~= Seq::<char>::empty());
        assert(collapse_sp(s) =~= seq![' ']);
    } else {
        lemma_collapse_ws_run(s.drop_last());
        assert(is_space(s.last())) by {
            assert(s[s.len() - 1] == s.last());
        }
        assert(collapse_sp(s) == seq![' ']);
    }
}

} // verus!
