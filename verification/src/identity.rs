//! Sample-identity resolution: the platform-specific rules that turn a file
//! name into a canonical sample identity.
//!
//! For Illumina, a trailing pattern of the shape
//! `_(S<digits>_)?(L<digits>_)?R<digits>(_<digits>)?.fastq.gz` is stripped at
//! its leftmost occurrence; two mate files of one sample therefore normalize
//! to the identical identity. For Nanopore only a trailing `.fastq.gz` is
//! stripped, so every file is its own sample.

use vstd::prelude::*;

use crate::prelude::SeqPlatform;
use crate::utils::match_at;

verus! {

/// A decimal digit character.
pub open spec fn is_digit(c: char) -> bool {
    c == '0' || c == '1' || c == '2' || c == '3' || c == '4' || c == '5' || c == '6' || c == '7'
        || c == '8' || c == '9'
}

/// Every character is a decimal digit.
pub open spec fn all_digits(s: Seq<char>) -> bool {
    forall|i: int| 0 <= i < s.len() ==> is_digit(#[trigger] s[i])
}

/// Empty, or `<tag><digits>_` with at least one digit.
pub open spec fn opt_tagged_seg(s: Seq<char>, tag: char) -> bool {
    s.len() == 0 || (s.len() >= 3 && s[0] == tag && s.last() == '_' && all_digits(
        s.subrange(1, s.len() - 1),
    ))
}

/// `R<digits>` with at least one digit.
pub open spec fn read_seg(s: Seq<char>) -> bool {
    s.len() >= 2 && s[0] == 'R' && all_digits(s.subrange(1, s.len() as int))
}

/// Empty, or `_<digits>` with at least one digit.
pub open spec fn opt_chunk_seg(s: Seq<char>) -> bool {
    s.len() == 0 || (s.len() >= 2 && s[0] == '_' && all_digits(s.subrange(1, s.len() as int)))
}

/// Every character of `x` in `[from, to)` is a decimal digit.
fn digits_check(x: &str, from: usize, to: usize) -> (r: bool)
    requires
        from <= to <= x@.len(),
    ensures
        r == all_digits(x@.subrange(from as int, to as int)),
{
    let mut i: usize = from;
    while i < to
        invariant
            from <= i <= to,
            to <= x@.len(),
            forall|k: int| from <= k < i ==> is_digit(#[trigger] x@[k]),
        decreases to - i,
    {
        let c = x.get_char(i);
        if !(c == '0' || c == '1' || c == '2' || c == '3' || c == '4' || c == '5' || c == '6' || c
            == '7' || c == '8' || c == '9') {
            proof {
                assert(x@.subrange(from as int, to as int)[i - from] == x@[i as int]);
            }
            return false;
        }
        i += 1;
    }
    proof {
        assert forall|k: int| 0 <= k < to - from implies is_digit(
            #[trigger] x@.subrange(from as int, to as int)[k],
        ) by {
            assert(x@.subrange(from as int, to as int)[k] == x@[from + k]);
        }
    }
    true
}

/// Decides `opt_tagged_seg` for `x[from .. to)`.
fn opt_tagged_check(x: &str, from: usize, to: usize, tag: char) -> (r: bool)
    requires
        from <= to <= x@.len(),
    ensures
        r == opt_tagged_seg(x@.subrange(from as int, to as int), tag),
{
    if from == to {
        return true;
    }
    if to - from < 3 {
        return false;
    }
    let head_ok = x.get_char(from) == tag;
    let tail_ok = x.get_char(to - 1) == '_';
    if !head_ok || !tail_ok {
        proof {
            assert(x@.subrange(from as int, to as int)[0] == x@[from as int]);
            assert(x@.subrange(from as int, to as int).last() == x@[to - 1]);
        }
        return false;
    }
    let digits_ok = digits_check(x, from + 1, to - 1);
    proof {
        let s = x@.subrange(from as int, to as int);
        assert(s[0] == x@[from as int]);
        assert(s.last() == x@[to - 1]);
        assert(s.subrange(1, s.len() - 1) =~= x@.subrange(from + 1, to - 1));
    }
    digits_ok
}

/// Decides `read_seg` for `x[from .. to)`.
fn read_check(x: &str, from: usize, to: usize) -> (r: bool)
    requires
        from <= to <= x@.len(),
    ensures
        r == read_seg(x@.subrange(from as int, to as int)),
{
    if to - from < 2 {
        return false;
    }
    if x.get_char(from) != 'R' {
        proof {
            assert(x@.subrange(from as int, to as int)[0] == x@[from as int]);
        }
        return false;
    }
    let digits_ok = digits_check(x, from + 1, to);
    proof {
        let s = x@.subrange(from as int, to as int);
        assert(s[0] == x@[from as int]);
        assert(s.subrange(1, s.len() as int) =~= x@.subrange(from + 1, to as int));
    }
    digits_ok
}

/// Decides `opt_chunk_seg` for `x[from .. to)`.
fn chunk_check(x: &str, from: usize, to: usize) -> (r: bool)
    requires
        from <= to <= x@.len(),
    ensures
        r == opt_chunk_seg(x@.subrange(from as int, to as int)),
{
    if from == to {
        return true;
    }
    if to - from < 2 {
        return false;
    }
    if x.get_char(from) != '_' {
        proof {
            assert(x@.subrange(from as int, to as int)[0] == x@[from as int]);
        }
        return false;
    }
    let digits_ok = digits_check(x, from + 1, to);
    proof {
        let s = x@.subrange(from as int, to as int);
        assert(s[0] == x@[from as int]);
        assert(s.subrange(1, s.len() as int) =~= x@.subrange(from + 1, to as int));
    }
    digits_ok
}

/// `s` splits into `R<digits>` followed by an optional `_<digits>` chunk.
pub open spec fn read_chunk_tail(s: Seq<char>) -> bool {
    exists|c: int|
        0 <= c <= s.len() && read_seg(#[trigger] s.subrange(0, c)) && opt_chunk_seg(
            s.subrange(c, s.len() as int),
        )
}

/// Decides `read_chunk_tail` for `x[from .. to)`.
fn read_chunk_tail_check(x: &str, from: usize, to: usize) -> (r: bool)
    requires
        from <= to <= x@.len(),
    ensures
        r == read_chunk_tail(x@.subrange(from as int, to as int)),
{
    let ghost s = x@.subrange(from as int, to as int);
    let mut c: usize = from;
    while c < to
        invariant
            from <= c <= to,
            to <= x@.len(),
            s == x@.subrange(from as int, to as int),
            forall|cc: int|
                from <= cc < c ==> !(read_seg(#[trigger] x@.subrange(from as int, cc))
                    && opt_chunk_seg(x@.subrange(cc, to as int))),
        decreases to - c,
    {
        if read_check(x, from, c) && chunk_check(x, c, to) {
            proof {
                assert(s.subrange(0, c - from) =~= x@.subrange(from as int, c as int));
                assert(s.subrange(c - from, s.len() as int) =~= x@.subrange(c as int, to as int));
                assert(read_seg(s.subrange(0, c - from)) && opt_chunk_seg(
                    s.subrange(c - from, s.len() as int),
                ));
            }
            return true;
        }
        c += 1;
    }
    if read_check(x, from, to) {
        proof {
            assert(s.subrange(0, s.len() as int) =~= x@.subrange(from as int, to as int));
            assert(s.subrange(s.len() as int, s.len() as int) =~= Seq::<char>::empty());
            assert(read_seg(s.subrange(0, s.len() as int)) && opt_chunk_seg(
                s.subrange(s.len() as int, s.len() as int),
            ));
        }
        return true;
    }
    proof {
        assert(!read_chunk_tail(s)) by {
            if read_chunk_tail(s) {
                let cw = choose|cw: int|
                    0 <= cw <= s.len() && read_seg(#[trigger] s.subrange(0, cw)) && opt_chunk_seg(
                        s.subrange(cw, s.len() as int),
                    );
                assert(x@.subrange(from as int, from + cw) =~= s.subrange(0, cw));
                assert(x@.subrange(from + cw, to as int) =~= s.subrange(cw, s.len() as int));
                if from + cw < to {
                    assert(!(read_seg(x@.subrange(from as int, from + cw)) && opt_chunk_seg(
                        x@.subrange(from + cw, to as int),
                    )));
                } else {
                    assert(x@.subrange(from as int, from + cw) == x@.subrange(
                        from as int,
                        to as int,
                    ));
                }
                assert(false);
            }
        }
    }
    false
}

/// `s` splits into an optional `L<digits>_` segment followed by a
/// `read_chunk_tail`.
pub open spec fn lr_tail(s: Seq<char>) -> bool {
    exists|b: int|
        0 <= b <= s.len() && opt_tagged_seg(#[trigger] s.subrange(0, b), 'L') && read_chunk_tail(
            s.subrange(b, s.len() as int),
        )
}

/// Decides `lr_tail` for `x[from .. to)`.
fn lr_tail_check(x: &str, from: usize, to: usize) -> (r: bool)
    requires
        from <= to <= x@.len(),
    ensures
        r == lr_tail(x@.subrange(from as int, to as int)),
{
    let ghost s = x@.subrange(from as int, to as int);
    let mut b: usize = from;
    while b < to
        invariant
            from <= b <= to,
            to <= x@.len(),
            s == x@.subrange(from as int, to as int),
            forall|bb: int|
                from <= bb < b ==> !(opt_tagged_seg(#[trigger] x@.subrange(from as int, bb), 'L')
                    && read_chunk_tail(x@.subrange(bb, to as int))),
        decreases to - b,
    {
        if opt_tagged_check(x, from, b, 'L') && read_chunk_tail_check(x, b, to) {
            proof {
                assert(s.subrange(0, b - from) =~= x@.subrange(from as int, b as int));
                assert(s.subrange(b - from, s.len() as int) =~= x@.subrange(b as int, to as int));
                assert(opt_tagged_seg(s.subrange(0, b - from), 'L') && read_chunk_tail(
                    s.subrange(b - from, s.len() as int),
                ));
            }
            return true;
        }
        b += 1;
    }
    if opt_tagged_check(x, from, to, 'L') && read_chunk_tail_check(x, to, to) {
        proof {
            assert(s.subrange(0, s.len() as int) =~= x@.subrange(from as int, to as int));
            assert(s.subrange(s.len() as int, s.len() as int) =~= x@.subrange(to as int, to as int));
        }
        return true;
    }
    proof {
        assert(!lr_tail(s)) by {
            if lr_tail(s) {
                let bw = choose|bw: int|
                    0 <= bw <= s.len() && opt_tagged_seg(#[trigger] s.subrange(0, bw), 'L')
                        && read_chunk_tail(s.subrange(bw, s.len() as int));
                assert(x@.subrange(from as int, from + bw) =~= s.subrange(0, bw));
                assert(x@.subrange(from + bw, to as int) =~= s.subrange(bw, s.len() as int));
                if from + bw < to {
                    assert(!(opt_tagged_seg(x@.subrange(from as int, from + bw), 'L')
                        && read_chunk_tail(x@.subrange(from + bw, to as int))));
                } else {
                    assert(x@.subrange(from as int, from + bw) == x@.subrange(
                        from as int,
                        to as int,
                    ));
                    assert(x@.subrange(from + bw, to as int) == x@.subrange(to as int, to as int));
                }
                assert(false);
            }
        }
    }
    false
}

/// `s` splits into an optional `S<digits>_` segment, an optional
/// `L<digits>_` segment, `R<digits>`, and an optional `_<digits>` chunk.
pub open spec fn illumina_body(s: Seq<char>) -> bool {
    exists|a: int|
        0 <= a <= s.len() && opt_tagged_seg(#[trigger] s.subrange(0, a), 'S') && lr_tail(
            s.subrange(a, s.len() as int),
        )
}

/// Decides `illumina_body` for `x[from .. to)`.
fn body_check(x: &str, from: usize, to: usize) -> (r: bool)
    requires
        from <= to <= x@.len(),
    ensures
        r == illumina_body(x@.subrange(from as int, to as int)),
{
    let ghost s = x@.subrange(from as int, to as int);
    let mut a: usize = from;
    while a < to
        invariant
            from <= a <= to,
            to <= x@.len(),
            s == x@.subrange(from as int, to as int),
            forall|aa: int|
                from <= aa < a ==> !(opt_tagged_seg(#[trigger] x@.subrange(from as int, aa), 'S')
                    && lr_tail(x@.subrange(aa, to as int))),
        decreases to - a,
    {
        if opt_tagged_check(x, from, a, 'S') && lr_tail_check(x, a, to) {
            proof {
                assert(s.subrange(0, a - from) =~= x@.subrange(from as int, a as int));
                assert(s.subrange(a - from, s.len() as int) =~= x@.subrange(a as int, to as int));
                assert(opt_tagged_seg(s.subrange(0, a - from), 'S') && lr_tail(
                    s.subrange(a - from, s.len() as int),
                ));
            }
            return true;
        }
        a += 1;
    }
    if opt_tagged_check(x, from, to, 'S') && lr_tail_check(x, to, to) {
        proof {
            assert(s.subrange(0, s.len() as int) =~= x@.subrange(from as int, to as int));
            assert(s.subrange(s.len() as int, s.len() as int) =~= x@.subrange(to as int, to as int));
        }
        return true;
    }
    proof {
        assert(!illumina_body(s)) by {
            if illumina_body(s) {
                let aw = choose|aw: int|
                    0 <= aw <= s.len() && opt_tagged_seg(#[trigger] s.subrange(0, aw), 'S')
                        && lr_tail(s.subrange(aw, s.len() as int));
                assert(x@.subrange(from as int, from + aw) =~= s.subrange(0, aw));
                assert(x@.subrange(from + aw, to as int) =~= s.subrange(aw, s.len() as int));
                if from + aw < to {
                    assert(!(opt_tagged_seg(x@.subrange(from as int, from + aw), 'S') && lr_tail(
                        x@.subrange(from + aw, to as int),
                    )));
                } else {
                    assert(x@.subrange(from as int, from + aw) == x@.subrange(
                        from as int,
                        to as int,
                    ));
                    assert(x@.subrange(from + aw, to as int) == x@.subrange(to as int, to as int));
                }
                assert(false);
            }
        }
    }
    false
}

/// `s` ends with `suffix`.
pub open spec fn ends_with(s: Seq<char>, suffix: Seq<char>) -> bool {
    s.len() >= suffix.len() && s.subrange(s.len() - suffix.len(), s.len() as int) == suffix
}

/// `s` starts with `prefix`.
pub open spec fn starts_with(s: Seq<char>, prefix: Seq<char>) -> bool {
    s.len() >= prefix.len() && s.subrange(0, prefix.len() as int) == prefix
}

/// `s` is a complete Illumina read-file suffix: an underscore, the optional
/// sample-number and lane segments, the mandatory read-number segment, the
/// optional chunk number, and the `.fastq.gz` extension.
pub open spec fn illumina_suffix(s: Seq<char>) -> bool {
    &&& s.len() >= 1 + ".fastq.gz"@.len()
    &&& s[0] == '_'
    &&& ends_with(s, ".fastq.gz"@)
    &&& illumina_body(s.subrange(1, s.len() - ".fastq.gz"@.len()))
}

/// Decides whether an Illumina suffix starts at position `i` and runs to the
/// end of `x`.
fn illumina_suffix_at(x: &str, i: usize) -> (r: bool)
    requires
        i <= x@.len(),
    ensures
        r == illumina_suffix(x@.subrange(i as int, x@.len() as int)),
{
    let ghost s = x@.subrange(i as int, x@.len() as int);
    let len = x.unicode_len();
    let ext = ".fastq.gz";
    let elen = ext.unicode_len();
    if len - i <= elen {
        return false;
    }
    if x.get_char(i) != '_' {
        proof {
            assert(s[0] == x@[i as int]);
        }
        return false;
    }
    if !match_at(x, len - elen, ext) {
        proof {
            assert(s.subrange(s.len() - ext@.len(), s.len() as int) =~= x@.subrange(
                len - elen,
                len as int,
            ));
        }
        return false;
    }
    let body_ok = body_check(x, i + 1, len - elen);
    proof {
        assert(s[0] == x@[i as int]);
        assert(s.subrange(s.len() - ext@.len(), s.len() as int) =~= x@.subrange(
            len - elen,
            len as int,
        ));
        assert(s.subrange(1, s.len() - ext@.len()) =~= x@.subrange(i + 1, (len - elen) as int));
    }
    body_ok
}

/// The first position at or after `i` where an Illumina suffix starts, or
/// `name.len()` when none does.
pub open spec fn illumina_match_from(name: Seq<char>, i: int) -> int
    decreases name.len() - i,
{
    if i < 0 || i >= name.len() {
        name.len() as int
    } else if illumina_suffix(name.subrange(i, name.len() as int)) {
        i
    } else {
        illumina_match_from(name, i + 1)
    }
}

/// The Illumina sample identity of a file name: the text before the leftmost
/// Illumina suffix, or the whole name when no suffix occurs.
pub open spec fn illumina_id_spec(name: Seq<char>) -> Seq<char> {
    name.subrange(0, illumina_match_from(name, 0))
}

proof fn lemma_match_from_found(name: Seq<char>, k: int, i: int)
    requires
        0 <= k <= i <= name.len(),
        forall|j: int|
            k <= j < i ==> !illumina_suffix(#[trigger] name.subrange(j, name.len() as int)),
        i == name.len() || illumina_suffix(name.subrange(i, name.len() as int)),
    ensures
        illumina_match_from(name, k) == i,
    decreases i - k,
{
    if k < i {
        lemma_match_from_found(name, k + 1, i);
    }
}

/// Strips the leftmost Illumina suffix from `name`, yielding the sample
/// identity.
pub fn illumina_id(name: &str) -> (r: String)
    ensures
        r@ == illumina_id_spec(name@),
{
    let len = name.unicode_len();
    let mut i: usize = 0;
    while i < len
        invariant
            i <= len,
            len == name@.len(),
            forall|j: int|
                0 <= j < i ==> !illumina_suffix(#[trigger] name@.subrange(j, name@.len() as int)),
        decreases len - i,
    {
        if illumina_suffix_at(name, i) {
            proof {
                lemma_match_from_found(name@, 0, i as int);
            }
            return name.substring_char(0, i).to_owned();
        }
        i += 1;
    }
    proof {
        lemma_match_from_found(name@, 0, len as int);
        assert(name@.subrange(0, len as int) =~= name@);
    }
    name.to_owned()
}

/// The Nanopore sample identity of a file name: the name with a trailing
/// `.fastq.gz` removed, or the whole name when it lacks that extension.
pub open spec fn nanopore_id_spec(name: Seq<char>) -> Seq<char> {
    if ends_with(name, ".fastq.gz"@) {
        name.subrange(0, name.len() - ".fastq.gz"@.len())
    } else {
        name
    }
}

/// Strips a trailing `.fastq.gz` from `name`, yielding the sample identity.
pub fn nanopore_id(name: &str) -> (r: String)
    ensures
        r@ == nanopore_id_spec(name@),
{
    let len = name.unicode_len();
    let ext = ".fastq.gz";
    let elen = ext.unicode_len();
    if len >= elen && match_at(name, len - elen, ext) {
        proof {
            assert(name@.subrange(name@.len() - ext@.len(), name@.len() as int) =~= name@.subrange(
                (len - elen) as int,
                (len - elen) + ext@.len() as int,
            ));
        }
        name.substring_char(0, len - elen).to_owned()
    } else {
        proof {
            if len >= elen {
                assert(name@.subrange(name@.len() - ext@.len(), name@.len() as int) =~= name@
                    .subrange((len - elen) as int, (len - elen) + ext@.len() as int));
            }
        }
        name.to_owned()
    }
}

/// The sample identity a platform derives from one file name.
pub open spec fn platform_id(p: SeqPlatform, name: Seq<char>) -> Seq<char> {
    match p {
        SeqPlatform::Illumina => illumina_id_spec(name),
        SeqPlatform::Nanopore => nanopore_id_spec(name),
    }
}

/// Appends `id` unless it is already present, keeping first occurrences.
pub open spec fn insert_unique(ids: Seq<Seq<char>>, id: Seq<char>) -> Seq<Seq<char>> {
    if ids.contains(id) {
        ids
    } else {
        ids.push(id)
    }
}

/// The canonical sample identities of a list of file paths, in order of
/// first appearance and without duplicates. Only the file-name component of
/// each path is inspected.
pub open spec fn resolve_ids(p: SeqPlatform, paths: Seq<Seq<char>>) -> Seq<Seq<char>>
    decreases paths.len(),
{
    if paths.len() == 0 {
        Seq::empty()
    } else {
        insert_unique(
            resolve_ids(p, paths.drop_last()),
            platform_id(p, crate::utils::file_name_spec(paths.last())),
        )
    }
}

/// Resolved identities are pairwise distinct: the identity set enforces
/// uniqueness.
pub proof fn lemma_resolve_ids_distinct(p: SeqPlatform, paths: Seq<Seq<char>>)
    ensures
        forall|i: int, j: int|
            0 <= i < j < resolve_ids(p, paths).len() ==> #[trigger] resolve_ids(p, paths)[i]
                != #[trigger] resolve_ids(p, paths)[j],
    decreases paths.len(),
{
    if paths.len() > 0 {
        lemma_resolve_ids_distinct(p, paths.drop_last());
        let prev = resolve_ids(p, paths.drop_last());
        let id = platform_id(p, crate::utils::file_name_spec(paths.last()));
        if !prev.contains(id) {
            let r = resolve_ids(p, paths);
            assert forall|i: int, j: int| 0 <= i < j < r.len() implies #[trigger] r[i]
                != #[trigger] r[j] by {
                if j < prev.len() {
                    assert(r[i] == prev[i] && r[j] == prev[j]);
                } else {
                    assert(r[j] == id);
                    assert(r[i] == prev[i]);
                    assert(!prev.contains(id));
                }
            }
        }
    }
}

} // verus!
