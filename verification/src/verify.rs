//! Checking pulled files against a `SHA256SUMS` listing.

use vstd::prelude::*;

use crate::oci::Error;
use crate::text;

verus! {

broadcast use vstd::seq_lib::group_seq_properties;

/// The lower-case hexadecimal digit of `n < 16`.
pub open spec fn hex_digit(n: u8) -> char {
    if n < 10 {
        (n + 48) as char
    } else {
        (n + 87) as char
    }
}

/// Two lower-case hexadecimal digits per byte (`{:02x}` of each).
pub open spec fn hex_lower(b: Seq<u8>) -> Seq<char>
    decreases b.len(),
{
    if b.len() == 0 {
        Seq::empty()
    } else {
        hex_lower(b.drop_last()) + seq![hex_digit(b.last() / 16), hex_digit(b.last() % 16)]
    }
}

fn hex_char(n: u8) -> (res: char)
    requires
        n < 16,
    ensures
        res == hex_digit(n),
{
    if n < 10 {
        (n + 48) as char
    } else {
        (n + 87) as char
    }
}

/// The lower-case hexadecimal text of `bytes`.
pub fn to_hex_lower(bytes: &[u8]) -> (res: String)
    ensures
        res@ == hex_lower(bytes@),
{
    let mut out = String::new();
    let mut i: usize = 0;
    while i < bytes.len()
        invariant
            i <= bytes@.len(),
            out@ == hex_lower(bytes@.take(i as int)),
        decreases bytes@.len() - i,
    {
        let b = bytes[i];
        text::push_char(&mut out, hex_char(b / 16));
        text::push_char(&mut out, hex_char(b % 16));
        proof {
            let t = bytes@.take(i + 1);
            assert(t.drop_last() =~= bytes@.take(i as int));
            assert(t.last() == b);
        }
        i = i + 1;
    }
    proof {
        assert(bytes@.take(bytes@.len() as int) =~= bytes@);
    }
    out
}

pub open spec fn two_spaces(s: Seq<char>, j: int) -> bool {
    s[j] == ' ' && s[j + 1] == ' '
}

/// Position of the first two consecutive spaces in `s`, or `-1`.
pub open spec fn double_space(s: Seq<char>) -> int
    decreases s.len(),
{
    if s.len() < 2 {
        -1
    } else if s[0] == ' ' && s[1] == ' ' {
        0
    } else {
        let r = double_space(s.drop_first());
        if r < 0 {
            -1
        } else {
            r + 1
        }
    }
}

proof fn lemma_double_space_at(s: Seq<char>, k: int)
    requires
        0 <= k && k + 1 < s.len(),
        s[k] == ' ' && s[k + 1] == ' ',
        forall|j: int| 0 <= j < k ==> !#[trigger] two_spaces(s, j),
    ensures
        double_space(s) == k,
    decreases k,
{
    if k > 0 {
        let t = s.drop_first();
        assert forall|j: int| 0 <= j < k - 1 implies !two_spaces(t, j) by {
            assert(t[j] == s[j + 1] && t[j + 1] == s[j + 2]);
            assert(!two_spaces(s, j + 1));
        }
        assert(!two_spaces(s, 0));
        lemma_double_space_at(t, k - 1);
    }
}

proof fn lemma_double_space_absent(s: Seq<char>)
    requires
        forall|j: int| 0 <= j && j + 1 < s.len() ==> !#[trigger] two_spaces(s, j),
    ensures
        double_space(s) == -1,
    decreases s.len(),
{
    if s.len() >= 2 {
        let t = s.drop_first();
        assert forall|j: int| 0 <= j && j + 1 < t.len() implies !two_spaces(t, j) by {
            assert(t[j] == s[j + 1] && t[j + 1] == s[j + 2]);
            assert(!two_spaces(s, j + 1));
        }
        assert(!two_spaces(s, 0));
        lemma_double_space_absent(t);
    }
}

pub const MALFORMED_LINE: &'static str = "malformed SHA256SUMS line";

/// One `SHA256SUMS` line: the expected digest before the first two spaces,
/// the file name after them (`splitn(2, "  ")`). A line without two
/// consecutive spaces is malformed.
pub fn parse_sums_line(line: &str) -> (res: Result<(String, String), Error>)
    ensures
        match res {
            Ok((expected, name)) => double_space(line@) >= 0 && expected@ == line@.take(
                double_space(line@),
            ) && name@ == line@.skip(double_space(line@) + 2),
            Err(Error::Other(m)) => double_space(line@) < 0 && m@ == MALFORMED_LINE@,
            Err(_) => false,
        },
{
    let v = text::chars_of(line);
    let mut k: usize = 0;
    while k < v.len() && v.len() - k > 1 && !(v[k] == ' ' && v[k + 1] == ' ')
        invariant
            v@ == line@,
            k <= v@.len(),
            forall|j: int| 0 <= j < k ==> !#[trigger] two_spaces(v@, j),
        decreases v@.len() - k,
    {
        k = k + 1;
    }
    if k < v.len() && v.len() - k > 1 {
        proof {
            lemma_double_space_at(v@, k as int);
        }
        Ok((text::string_from(&v, 0, k), text::string_from(&v, k + 2, v.len())))
    } else {
        proof {
            assert forall|j: int| 0 <= j && j + 1 < v@.len() implies !two_spaces(v@, j) by {
                assert(j < k);
            }
            lemma_double_space_absent(v@);
        }
        Err(Error::Other(String::from_str(MALFORMED_LINE)))
    }
}

/// The lines of a `SHA256SUMS` listing (`str::lines`).
pub fn sums_lines(content: &str) -> (res: Vec<String>)
    ensures
        text::views(res@) == text::lines(content@),
{
    let v = text::chars_of(content);
    let ranges = text::line_ranges(&v);
    let mut out: Vec<String> = Vec::new();
    let mut i: usize = 0;
    while i < ranges.len()
        invariant
            i <= ranges@.len(),
            v@ == content@,
            ranges@.len() == text::lines(v@).len(),
            forall|j: int|
                0 <= j < ranges@.len() ==> {
                    &&& (#[trigger] ranges@[j]).0 <= ranges@[j].1 <= v@.len()
                    &&& v@.subrange(ranges@[j].0 as int, ranges@[j].1 as int) == text::lines(
                        v@,
                    )[j]
                },
            text::views(out@) == text::lines(v@).take(i as int),
            out@.len() == i,
        decreases ranges@.len() - i,
    {
        let (a, b) = ranges[i];
        let ghost old_out = out@;
        let piece = text::string_from(&v, a, b);
        out.push(piece);
        proof {
            assert(out@ == old_out.push(piece));
            assert(text::views(old_out) == text::lines(v@).take(i as int));
            assert forall|j: int| 0 <= j < i + 1 implies #[trigger] text::views(out@)[j] == text::lines(v@).take(i + 1)[j] by {
                if j < i {
                    assert(out@[j] == old_out[j]);
                    assert(text::views(old_out)[j] == text::lines(v@).take(
                        i as int,
                    )[j]);
                }
            }
            assert(text::views(out@) =~= text::lines(v@).take(i + 1));
        }
        i = i + 1;
    }
    proof {
        assert(text::lines(v@).take(ranges@.len() as int) =~= text::lines(v@));
    }
    out
}

/// Compares a computed digest with the expected hex text of a listed file.
pub fn check_sum(expected: &str, digest: &[u8], name: &str) -> (res: Result<(), Error>)
    ensures
        match res {
            Ok(()) => hex_lower(digest@) == expected@,
            Err(Error::ChecksumMismatch(n)) => hex_lower(digest@) != expected@ && n@ == name@,
            Err(_) => false,
        },
{
    let actual = to_hex_lower(digest);
    if text::str_eq(actual.as_str(), expected) {
        Ok(())
    } else {
        Err(Error::ChecksumMismatch(String::from_str(name)))
    }
}

/// How reading the `SHA256SUMS` file went.
pub enum SumsFile {
    /// There is no such file.
    Missing,
    /// It could not be read, for this reason.
    Unreadable(String),
    /// Its contents.
    Read(String),
}

/// The digest expected by a well-formed `SHA256SUMS` line.
pub open spec fn sums_expected(line: Seq<char>) -> Seq<char> {
    line.take(double_space(line))
}

/// The file a well-formed `SHA256SUMS` line is about.
pub open spec fn sums_name(line: Seq<char>) -> Seq<char> {
    line.skip(double_space(line) + 2)
}

/// The outcome of a check, by the characters of its texts.
pub enum SumsModel {
    Passed,
    Malformed,
    Io(Seq<char>),
    Mismatch(Seq<char>),
    /// A well-formed line whose file was never looked at.
    Unchecked,
}

/// The outcome of checking `lines` from line `i` on, given the digest of
/// each listed file, or why it could not be read (one per line looked at):
/// the first malformed line, unreadable file or mismatching digest stops
/// the check.
pub open spec fn check_lines(
    lines: Seq<Seq<char>>,
    digests: Seq<Result<Vec<u8>, String>>,
    i: int,
) -> SumsModel
    decreases lines.len() - i,
{
    if i < 0 || i >= lines.len() {
        SumsModel::Passed
    } else if double_space(lines[i]) < 0 {
        SumsModel::Malformed
    } else if i >= digests.len() {
        SumsModel::Unchecked
    } else {
        match digests[i] {
            Err(e) => SumsModel::Io(e@),
            Ok(d) => if hex_lower(d@) != sums_expected(lines[i]) {
                SumsModel::Mismatch(sums_name(lines[i]))
            } else {
                check_lines(lines, digests, i + 1)
            },
        }
    }
}

/// The outcome a result stands for.
pub open spec fn sums_model(r: Result<(), Error>) -> SumsModel {
    match r {
        Ok(()) => SumsModel::Passed,
        Err(Error::Other(m)) => if m@ == MALFORMED_LINE@ {
            SumsModel::Malformed
        } else {
            SumsModel::Unchecked
        },
        Err(Error::Io(m)) => SumsModel::Io(m@),
        Err(Error::ChecksumMismatch(n)) => SumsModel::Mismatch(n@),
        Err(_) => SumsModel::Unchecked,
    }
}

/// Checks the files listed in a `SHA256SUMS` file: `digest_of` gives the
/// SHA-256 digest of a listed file (by its name), or why it could not be
/// read. Each line is `<hex digest>  <name>`; the first malformed line,
/// unreadable file or differing digest is the error.
pub fn verify_sha256sums<F: Fn(String) -> Result<Vec<u8>, String>>(sums: SumsFile, digest_of: F) -> (res: Result<(), Error>)
    requires
        forall|n: String| #[trigger] digest_of.requires((n,)),
    ensures
        match sums {
            SumsFile::Missing => res matches Err(Error::MissingSha256Sums),
            SumsFile::Unreadable(m) => res matches Err(Error::Io(e)) && e@ == m@,
            SumsFile::Read(c) => exists|asked: Seq<String>, digests: Seq<Result<Vec<u8>, String>>|
                #![trigger check_lines(text::lines(c@), digests, 0), asked.len()]
                {
                    &&& asked.len() == digests.len()
                    &&& digests.len() <= text::lines(c@).len()
                    &&& forall|i: int|
                        0 <= i < digests.len() ==> (#[trigger] asked[i])@ == sums_name(
                            text::lines(c@)[i],
                        ) && digest_of.ensures((asked[i],), digests[i])
                    &&& sums_model(res) == check_lines(text::lines(c@), digests, 0)
                    &&& check_lines(text::lines(c@), digests, 0) != SumsModel::Unchecked
                },
        },
{
    let content = match sums {
        SumsFile::Missing => {
            return Err(Error::MissingSha256Sums);
        },
        SumsFile::Unreadable(m) => {
            return Err(Error::Io(m));
        },
        SumsFile::Read(c) => c,
    };
    let lines = sums_lines(content.as_str());
    let ghost ls = text::lines(content@);
    let ghost mut asked: Seq<String> = Seq::empty();
    let ghost mut digests: Seq<Result<Vec<u8>, String>> = Seq::empty();
    let mut i: usize = 0;
    while i < lines.len()
        invariant
            i <= lines@.len(),
            sums == SumsFile::Read(content),
            text::views(lines@) == ls,
            ls == text::lines(content@),
            forall|n: String| #[trigger] digest_of.requires((n,)),
            asked.len() == i,
            digests.len() == i,
            forall|j: int|
                0 <= j < i ==> (#[trigger] asked[j])@ == sums_name(ls[j]) && digest_of.ensures(
                    (asked[j],),
                    digests[j],
                ),
            forall|j: int|
                0 <= j < i ==> double_space(#[trigger] ls[j]) >= 0 && (digests[j] matches Ok(d)
                    && hex_lower(d@) == sums_expected(ls[j])),
        decreases lines@.len() - i,
    {
        proof {
            assert(ls[i as int] == lines@[i as int]@);
        }
        let (expected, name) = match parse_sums_line(lines[i].as_str()) {
            Ok(parts) => parts,
            Err(e) => {
                proof {
                    lemma_check_lines_prefix(ls, digests, i as int);
                    assert(sums_model(Err(e)) == check_lines(text::lines(content@), digests, 0));
                    assert(asked.len() == digests.len());
                    assert(sums matches SumsFile::Read(c) && c@ == content@);
                }
                return Err(e);
            },
        };
        let got = digest_of(name.clone());
        proof {
            asked = asked.push(name);
            digests = digests.push(got);
        }
        match &got {
            Err(e) => {
                let msg = e.clone();
                proof {
                    lemma_check_lines_prefix(ls, digests, i as int);
                    assert(sums_model(Err(Error::Io(msg))) == check_lines(
                        text::lines(content@),
                        digests,
                        0,
                    ));
                    assert(asked.len() == digests.len());
                    assert(sums matches SumsFile::Read(c) && c@ == content@);
                }
                return Err(Error::Io(msg));
            },
            Ok(d) => {
                match check_sum(expected.as_str(), d.as_slice(), name.as_str()) {
                    Ok(()) => {},
                    Err(e) => {
                        proof {
                            lemma_check_lines_prefix(ls, digests, i as int);
                            assert(sums_model(Err(e)) == check_lines(
                                text::lines(content@),
                                digests,
                                0,
                            ));
                            assert(asked.len() == digests.len());
                            assert(sums matches SumsFile::Read(c) && c@ == content@);
                        }
                        return Err(e);
                    },
                }
            },
        }
        i = i + 1;
    }
    proof {
        lemma_check_lines_prefix(ls, digests, i as int);
    }
    Ok(())
}

/// Where every line before `k` is well-formed and its file matches, the
/// check from the start comes to the check from line `k`.
proof fn lemma_check_lines_prefix(
    lines: Seq<Seq<char>>,
    digests: Seq<Result<Vec<u8>, String>>,
    k: int,
)
    requires
        0 <= k <= lines.len(),
        k <= digests.len(),
        forall|j: int|
            0 <= j < k ==> double_space(#[trigger] lines[j]) >= 0 && (digests[j] matches Ok(d)
                && hex_lower(d@) == sums_expected(lines[j])),
    ensures
        check_lines(lines, digests, 0) == check_lines(lines, digests, k),
    decreases k,
{
    if k > 0 {
        lemma_check_lines_prefix_from(lines, digests, 0, k);
    }
}

proof fn lemma_check_lines_prefix_from(
    lines: Seq<Seq<char>>,
    digests: Seq<Result<Vec<u8>, String>>,
    i: int,
    k: int,
)
    requires
        0 <= i <= k <= lines.len(),
        k <= digests.len(),
        forall|j: int|
            0 <= j < k ==> double_space(#[trigger] lines[j]) >= 0 && (digests[j] matches Ok(d)
                && hex_lower(d@) == sums_expected(lines[j])),
    ensures
        check_lines(lines, digests, i) == check_lines(lines, digests, k),
    decreases k - i,
{
    if i < k {
        assert(double_space(lines[i]) >= 0);
        lemma_check_lines_prefix_from(lines, digests, i + 1, k);
    }
}

/// A check passes only where every line is well-formed and every listed
/// file was read and has the digest its line expects.
pub proof fn law_passed_means_all_match(
    lines: Seq<Seq<char>>,
    digests: Seq<Result<Vec<u8>, String>>,
)
    requires
        check_lines(lines, digests, 0) is Passed,
    ensures
        forall|j: int|
            0 <= j < lines.len() ==> double_space(#[trigger] lines[j]) >= 0 && j < digests.len()
                && (digests[j] matches Ok(d) && hex_lower(d@) == sums_expected(lines[j])),
{
    lemma_passed_from(lines, digests, 0);
}

proof fn lemma_passed_from(lines: Seq<Seq<char>>, digests: Seq<Result<Vec<u8>, String>>, i: int)
    requires
        0 <= i,
        check_lines(lines, digests, i) is Passed,
    ensures
        forall|j: int|
            i <= j < lines.len() ==> double_space(#[trigger] lines[j]) >= 0 && j < digests.len()
                && (digests[j] matches Ok(d) && hex_lower(d@) == sums_expected(lines[j])),
    decreases lines.len() - i,
{
    if i < lines.len() {
        lemma_passed_from(lines, digests, i + 1);
    }
}

/// The hex text of a digest has two characters per byte.
pub proof fn law_hex_length(b: Seq<u8>)
    ensures
        hex_lower(b).len() == 2 * b.len(),
    decreases b.len(),
{
    if b.len() > 0 {
        law_hex_length(b.drop_last());
    }
}

} // verus!
