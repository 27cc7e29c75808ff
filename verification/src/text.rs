//! Byte-level text utilities: every document line and every name is a
//! sequence of bytes, and all string work of the engine happens here, with an
//! exact specification for each operation.

use vstd::prelude::*;

verus! {

use vstd::pervasive::VecAdditionalExecFns;

/// Bytes that count as whitespace when a directive remainder is trimmed:
/// space, tab, line feed, carriage return.
pub open spec fn is_trim_byte(b: u8) -> bool {
    b == 32 || b == 9 || b == 10 || b == 13
}

/// Byte-for-byte equality of two byte vectors.
pub fn bytes_eq(a: &Vec<u8>, b: &Vec<u8>) -> (r: bool)
    ensures
        r <==> a@ == b@,
{
    if a.len() != b.len() {
        return false;
    }
    let mut i: usize = 0;
    while i < a.len()
        invariant
            i <= a.len(),
            a.len() == b.len(),
            forall|j: int| 0 <= j < i ==> a@[j] == b@[j],
        decreases a.len() - i,
    {
        if a[i] != b[i] {
            return false;
        }
        i = i + 1;
    }
    proof {
        assert(a@ =~= b@);
    }
    true
}

/// Whether `pat` occurs in `line` starting at position `at`.
pub open spec fn spec_matches_at(line: Seq<u8>, pat: Seq<u8>, at: int) -> bool {
    0 <= at && at + pat.len() <= line.len() && line.subrange(at, at + pat.len()) == pat
}

/// Tests whether `pat` occurs in `line` at position `at`.
pub fn matches_at(line: &Vec<u8>, pat: &Vec<u8>, at: usize) -> (r: bool)
    ensures
        r <==> spec_matches_at(line@, pat@, at as int),
{
    if at > line.len() || pat.len() > line.len() - at {
        return false;
    }
    let mut i: usize = 0;
    while i < pat.len()
        invariant
            i <= pat.len(),
            at + pat.len() <= line.len(),
            forall|j: int| 0 <= j < i ==> line@[at + j] == pat@[j],
        decreases pat.len() - i,
    {
        if line[at + i] != pat[i] {
            proof {
                assert(line@.subrange(at as int, at + pat@.len())[i as int] == line@[at + i]);
            }
            return false;
        }
        i = i + 1;
    }
    proof {
        assert(line@.subrange(at as int, at + pat@.len()) =~= pat@);
    }
    true
}

/// Tests whether `line` begins with `pat`.
pub fn starts_with(line: &Vec<u8>, pat: &Vec<u8>) -> (r: bool)
    ensures
        r <==> pat@.is_prefix_of(line@),
{
    let r = matches_at(line, pat, 0);
    proof {
        if pat@.len() <= line@.len() {
            assert(line@.subrange(0, pat@.len() as int) =~= line@.take(pat@.len() as int));
        }
    }
    r
}

/// The sequence with leading trim bytes removed.
pub open spec fn spec_trim_front(s: Seq<u8>) -> Seq<u8>
    decreases s.len(),
{
    if s.len() > 0 && is_trim_byte(s[0]) {
        spec_trim_front(s.drop_first())
    } else {
        s
    }
}

/// The sequence with trailing trim bytes removed.
pub open spec fn spec_trim_back(s: Seq<u8>) -> Seq<u8>
    decreases s.len(),
{
    if s.len() > 0 && is_trim_byte(s.last()) {
        spec_trim_back(s.drop_last())
    } else {
        s
    }
}

/// The sequence with whitespace removed from both ends.
pub open spec fn spec_trim(s: Seq<u8>) -> Seq<u8> {
    spec_trim_back(spec_trim_front(s))
}

/// Copies `line` with whitespace removed from both ends.
pub fn trim(line: &Vec<u8>) -> (r: Vec<u8>)
    ensures
        r@ == spec_trim(line@),
{
    let mut lo: usize = 0;
    proof {
        assert(line@.skip(0) =~= line@);
    }
    while lo < line.len() && (line[lo] == 32 || line[lo] == 9 || line[lo] == 10 || line[lo] == 13)
        invariant
            lo <= line.len(),
            spec_trim_front(line@) == spec_trim_front(line@.skip(lo as int)),
        decreases line.len() - lo,
    {
        proof {
            assert(line@.skip(lo as int).drop_first() =~= line@.skip(lo as int + 1));
        }
        lo = lo + 1;
    }
    proof {
        // the remainder starts with a non-trim byte (or is empty), so
        // trimming its front leaves it unchanged
        assert(spec_trim_front(line@.skip(lo as int)) == line@.skip(lo as int));
    }
    let mut hi: usize = line.len();
    while hi > lo && (line[hi - 1] == 32 || line[hi - 1] == 9 || line[hi - 1] == 10 || line[hi - 1]
        == 13)
        invariant
            lo <= hi <= line.len(),
            spec_trim_front(line@) == line@.skip(lo as int),
            spec_trim_back(line@.skip(lo as int)) == spec_trim_back(
                line@.subrange(lo as int, hi as int),
            ),
        decreases hi,
    {
        proof {
            assert(line@.subrange(lo as int, hi as int).drop_last() =~= line@.subrange(
                lo as int,
                hi as int - 1,
            ));
            assert(line@.subrange(lo as int, hi as int).last() == line@[hi - 1]);
        }
        hi = hi - 1;
    }
    let mut r: Vec<u8> = Vec::new();
    let mut i: usize = lo;
    while i < hi
        invariant
            lo <= i <= hi <= line.len(),
            r@ == line@.subrange(lo as int, i as int),
        decreases hi - i,
    {
        r.push(line[i]);
        proof {
            assert(line@.subrange(lo as int, i as int).push(line@[i as int]) =~= line@.subrange(
                lo as int,
                i as int + 1,
            ));
        }
        i = i + 1;
    }
    proof {
        let mid = line@.subrange(lo as int, hi as int);
        if hi == lo {
            assert(mid =~= Seq::<u8>::empty());
        }
        assert(spec_trim_back(mid) == mid);
    }
    r
}

/// The tokens of `s`: maximal runs of bytes separated by spaces, with empty
/// runs dropped; `cur` is the partial token read so far.
pub open spec fn spec_tokens_acc(s: Seq<u8>, cur: Seq<u8>) -> Seq<Seq<u8>>
    decreases s.len(),
{
    if s.len() == 0 {
        if cur.len() > 0 {
            seq![cur]
        } else {
            Seq::empty()
        }
    } else if s[0] == 32 {
        if cur.len() > 0 {
            seq![cur] + spec_tokens_acc(s.drop_first(), Seq::empty())
        } else {
            spec_tokens_acc(s.drop_first(), Seq::empty())
        }
    } else {
        spec_tokens_acc(s.drop_first(), cur.push(s[0]))
    }
}

/// The space-separated tokens of `s`, empty tokens dropped.
pub open spec fn spec_tokens(s: Seq<u8>) -> Seq<Seq<u8>> {
    spec_tokens_acc(s, Seq::empty())
}

/// Appends one line to a vector of lines; the only place where the two-level
/// view of `Vec<Vec<u8>>` is related to a one-element extension.
pub fn push_line(r: &mut Vec<Vec<u8>>, x: Vec<u8>)
    ensures
        final(r).deep_view() == old(r).deep_view().push(x@),
        final(r)@.len() == old(r)@.len() + 1,
{
    r.push(x);
    proof {
        assert(r.deep_view() =~~= old(r).deep_view().push(x@));
    }
}

/// Appends every byte of `src` to `dst`.
pub fn append_bytes(dst: &mut Vec<u8>, src: &Vec<u8>)
    ensures
        final(dst)@ == old(dst)@ + src@,
{
    let mut i: usize = 0;
    while i < src.len()
        invariant
            i <= src@.len(),
            dst@ == old(dst)@ + src@.take(i as int),
        decreases src@.len() - i,
    {
        dst.push(src[i]);
        proof {
            assert(old(dst)@ + src@.take(i as int) + seq![src@[i as int]] =~= old(dst)@
                + src@.take(i as int + 1));
        }
        i = i + 1;
    }
    proof {
        assert(src@.take(src@.len() as int) =~= src@);
    }
}

/// Appends a copy of every line of `src` to `dst`.
pub fn append_lines(dst: &mut Vec<Vec<u8>>, src: &Vec<Vec<u8>>)
    ensures
        final(dst).deep_view() == old(dst).deep_view() + src.deep_view(),
{
    let mut i: usize = 0;
    while i < src.len()
        invariant
            i <= src@.len(),
            dst.deep_view() == old(dst).deep_view() + src.deep_view().take(i as int),
        decreases src@.len() - i,
    {
        let ghost before = dst.deep_view();
        push_line(dst, crate::block::clone_bytes(&src[i]));
        proof {
            assert(src.deep_view()[i as int] == src@[i as int]@);
            assert(old(dst).deep_view() + src.deep_view().take(i as int) + seq![src.deep_view()[i as int]]
                =~= old(dst).deep_view() + src.deep_view().take(i as int + 1));
        }
        i = i + 1;
    }
    proof {
        assert(src.deep_view().take(src@.len() as int) =~= src.deep_view());
    }
}

/// Replaces line `i` of `dst`, relating the two-level view to an update.
pub fn set_line(dst: &mut Vec<Vec<u8>>, i: usize, x: Vec<u8>)
    requires
        i < old(dst)@.len(),
    ensures
        final(dst).deep_view() == old(dst).deep_view().update(i as int, x@),
{
    dst.set(i, x);
    proof {
        assert(final(dst).deep_view() =~~= old(dst).deep_view().update(i as int, x@));
    }
}

/// Splits `line` on single spaces and drops the empty pieces.
pub fn split_tokens(line: &Vec<u8>) -> (r: Vec<Vec<u8>>)
    ensures
        r.deep_view() == spec_tokens(line@),
{
    let mut r: Vec<Vec<u8>> = Vec::new();
    let mut cur: Vec<u8> = Vec::new();
    let mut i: usize = 0;
    proof {
        assert(r.deep_view() =~~= Seq::<Seq<u8>>::empty());
        assert(line@.skip(0) =~= line@);
        assert(Seq::<Seq<u8>>::empty() + spec_tokens_acc(line@, Seq::empty()) =~= spec_tokens_acc(
            line@,
            Seq::empty(),
        ));
    }
    while i < line.len()
        invariant
            i <= line.len(),
            spec_tokens(line@) == r.deep_view() + spec_tokens_acc(line@.skip(i as int), cur@),
        decreases line.len() - i,
    {
        proof {
            assert(line@.skip(i as int).drop_first() =~= line@.skip(i as int + 1));
            assert(line@.skip(i as int)[0] == line@[i as int]);
        }
        if line[i] == 32 {
            if cur.len() > 0 {
                let ghost old_r = r.deep_view();
                let ghost cv = cur@;
                proof {
                    assert(spec_tokens_acc(line@.skip(i as int), cv) == seq![cv]
                        + spec_tokens_acc(line@.skip(i as int + 1), Seq::empty()));
                }
                push_line(&mut r, cur);
                proof {
                    assert(old_r + (seq![cv] + spec_tokens_acc(
                        line@.skip(i as int + 1),
                        Seq::empty(),
                    )) =~= old_r.push(cv) + spec_tokens_acc(line@.skip(i as int + 1), Seq::empty()));
                }
                cur = Vec::new();
            }
            proof {
                assert(cur@ =~= Seq::<u8>::empty());
                assert(spec_tokens_acc(line@.skip(i as int), Seq::empty()) == spec_tokens_acc(
                    line@.skip(i as int + 1),
                    Seq::empty(),
                ));
            }
        } else {
            let b = line[i];
            proof {
                assert(spec_tokens_acc(line@.skip(i as int), cur@) == spec_tokens_acc(
                    line@.skip(i as int + 1),
                    cur@.push(line@[i as int]),
                ));
            }
            cur.push(b);
        }
        i = i + 1;
    }
    proof {
        assert(line@.skip(line@.len() as int) =~= Seq::<u8>::empty());
    }
    if cur.len() > 0 {
        let ghost old_r = r.deep_view();
        let ghost cv = cur@;
        push_line(&mut r, cur);
        proof {
            assert(old_r + seq![cv] =~= old_r.push(cv));
        }
    }
    proof {
        assert(r.deep_view() + Seq::<Seq<u8>>::empty() =~= r.deep_view());
    }
    r
}

/// `s` with every non-overlapping occurrence of `pat`, scanned left to right,
/// replaced by `repl`.
pub open spec fn spec_replace_all(s: Seq<u8>, pat: Seq<u8>, repl: Seq<u8>) -> Seq<u8>
    decreases s.len(),
    when pat.len() > 0
{
    if s.len() == 0 {
        s
    } else if pat.is_prefix_of(s) {
        repl + spec_replace_all(s.skip(pat.len() as int), pat, repl)
    } else {
        seq![s[0]] + spec_replace_all(s.drop_first(), pat, repl)
    }
}

/// Copies `line`, replacing every occurrence of `pat` by `repl`, scanning
/// left to right without overlap.
pub fn replace_all(line: &Vec<u8>, pat: &Vec<u8>, repl: &Vec<u8>) -> (r: Vec<u8>)
    requires
        pat@.len() > 0,
    ensures
        r@ == spec_replace_all(line@, pat@, repl@),
{
    let mut r: Vec<u8> = Vec::new();
    let mut i: usize = 0;
    proof {
        assert(line@.skip(0) =~= line@);
        assert(Seq::<u8>::empty() + spec_replace_all(line@, pat@, repl@) =~= spec_replace_all(
            line@,
            pat@,
            repl@,
        ));
    }
    while i < line.len()
        invariant
            i <= line.len(),
            pat@.len() > 0,
            spec_replace_all(line@, pat@, repl@) == r@ + spec_replace_all(
                line@.skip(i as int),
                pat@,
                repl@,
            ),
        decreases line.len() - i,
    {
        if matches_at(line, pat, i) {
            proof {
                assert(line@.skip(i as int).take(pat@.len() as int) =~= line@.subrange(
                    i as int,
                    i + pat@.len(),
                ));
                assert(pat@.is_prefix_of(line@.skip(i as int)));
                assert(line@.skip(i as int).skip(pat@.len() as int) =~= line@.skip(i + pat@.len()));
            }
            let ghost old_r = r@;
            let mut k: usize = 0;
            while k < repl.len()
                invariant
                    k <= repl.len(),
                    r@ == old_r + repl@.take(k as int),
                decreases repl.len() - k,
            {
                r.push(repl[k]);
                proof {
                    assert(old_r + repl@.take(k as int) + seq![repl@[k as int]] =~= old_r
                        + repl@.take(k as int + 1));
                }
                k = k + 1;
            }
            proof {
                assert(repl@.take(repl@.len() as int) =~= repl@);
                assert(old_r + repl@ + spec_replace_all(line@.skip(i + pat@.len()), pat@, repl@)
                    =~= old_r + (repl@ + spec_replace_all(line@.skip(i + pat@.len()), pat@, repl@)));
            }
            i = i + pat.len();
        } else {
            proof {
                if pat@.is_prefix_of(line@.skip(i as int)) {
                    assert(line@.subrange(i as int, i + pat@.len()) =~= line@.skip(i as int).take(
                        pat@.len() as int,
                    ));
                }
                assert(line@.skip(i as int)[0] == line@[i as int]);
                assert(line@.skip(i as int).drop_first() =~= line@.skip(i as int + 1));
            }
            let ghost old_r = r@;
            r.push(line[i]);
            proof {
                assert(old_r + (seq![line@[i as int]] + spec_replace_all(
                    line@.skip(i as int + 1),
                    pat@,
                    repl@,
                )) =~= r@ + spec_replace_all(line@.skip(i as int + 1), pat@, repl@));
            }
            i = i + 1;
        }
    }
    proof {
        assert(line@.skip(line@.len() as int) =~= Seq::<u8>::empty());
        assert(r@ + Seq::<u8>::empty() =~= r@);
    }
    r
}

/// Whether `needle` occurs somewhere in `hay`.
pub open spec fn spec_contains(hay: Seq<u8>, needle: Seq<u8>) -> bool {
    exists|i: int| spec_matches_at(hay, needle, i)
}

/// Tests whether `needle` occurs somewhere in `line`.
pub fn contains_sub(line: &Vec<u8>, needle: &Vec<u8>) -> (r: bool)
    ensures
        r <==> spec_contains(line@, needle@),
{
    if needle.len() > line.len() {
        return false;
    }
    if needle.len() == 0 {
        proof {
            assert(line@.subrange(0, 0) =~= needle@);
            assert(spec_matches_at(line@, needle@, 0));
        }
        return true;
    }
    let end: usize = line.len() - needle.len();
    let mut i: usize = 0;
    while i <= end
        invariant
            0 < needle@.len() <= line@.len(),
            line@.len() <= usize::MAX,
            end == line@.len() - needle@.len(),
            i <= end + 1,
            forall|j: int| 0 <= j < i ==> !spec_matches_at(line@, needle@, j),
        decreases end + 1 - i,
    {
        if matches_at(line, needle, i) {
            return true;
        }
        i = i + 1;
    }
    false
}

/// The ASCII-lowercase image of a byte: letters `A` to `Z` shifted to their
/// lower-case forms, everything else unchanged.
pub open spec fn spec_lower_byte(b: u8) -> u8 {
    if 65 <= b && b <= 90 {
        (b + 32) as u8
    } else {
        b
    }
}

/// The sequence with every ASCII upper-case letter lowered.
pub open spec fn spec_ascii_lower(s: Seq<u8>) -> Seq<u8> {
    s.map_values(|b: u8| spec_lower_byte(b))
}

/// Copies `line` with every ASCII upper-case letter lowered.
pub fn ascii_lowercase(line: &Vec<u8>) -> (r: Vec<u8>)
    ensures
        r@ == spec_ascii_lower(line@),
{
    let mut r: Vec<u8> = Vec::new();
    let mut i: usize = 0;
    while i < line.len()
        invariant
            i <= line.len(),
            r@.len() == i,
            forall|j: int| 0 <= j < i ==> r@[j] == spec_lower_byte(line@[j]),
        decreases line.len() - i,
    {
        let b = line[i];
        if 65 <= b && b <= 90 {
            r.push(b + 32);
        } else {
            r.push(b);
        }
        i = i + 1;
    }
    proof {
        assert(r@ =~= spec_ascii_lower(line@));
    }
    r
}

/// `s` with every tab expanded to four spaces.
pub open spec fn spec_expand_tabs(s: Seq<u8>) -> Seq<u8> {
    spec_replace_all(s, seq![9u8], seq![32u8, 32u8, 32u8, 32u8])
}

/// Copies `line` with every tab expanded to four spaces; documents are
/// normalized this way, line by line, before they are parsed.
pub fn expand_tabs(line: &Vec<u8>) -> (r: Vec<u8>)
    ensures
        r@ == spec_expand_tabs(line@),
{
    let pat: Vec<u8> = vec![9u8];
    let repl: Vec<u8> = vec![32u8, 32u8, 32u8, 32u8];
    let r = replace_all(line, &pat, &repl);
    proof {
        assert(pat@ =~= seq![9u8]);
        assert(repl@ =~= seq![32u8, 32u8, 32u8, 32u8]);
    }
    r
}

/// `s` with every line-feed byte removed.
pub open spec fn spec_strip_newlines(s: Seq<u8>) -> Seq<u8> {
    spec_replace_all(s, seq![10u8], Seq::empty())
}

/// Copies `line` with every line-feed byte removed.
pub fn strip_newlines(line: &Vec<u8>) -> (r: Vec<u8>)
    ensures
        r@ == spec_strip_newlines(line@),
{
    let pat: Vec<u8> = vec![10u8];
    let repl: Vec<u8> = Vec::new();
    let r = replace_all(line, &pat, &repl);
    proof {
        assert(pat@ =~= seq![10u8]);
        assert(repl@ =~= Seq::<u8>::empty());
    }
    r
}

} // verus!
