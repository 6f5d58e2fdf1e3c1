//! Running `rpiboot` to expose a Compute Module's eMMC as a USB disk.

use vstd::prelude::*;

use crate::oci::concat;
use crate::slot::Invocation;
use crate::text;

verus! {

/// Errors of running `rpiboot`.
#[derive(Debug)]
pub enum Error {
    NotFound,
    NoElevator,
    ExecutionFailed(String),
}

impl Error {
    /// The text shown for the error.
    pub fn message(&self) -> (res: String)
        ensures
            res@ == (match self {
                Error::NotFound => "rpiboot not found"@,
                Error::NoElevator => "pkexec is required for privilege escalation"@,
                Error::ExecutionFailed(m) => "rpiboot failed: "@ + m@,
            }),
    {
        match self {
            Error::NotFound => String::from_str("rpiboot not found"),
            Error::NoElevator => String::from_str("pkexec is required for privilege escalation"),
            Error::ExecutionFailed(m) => concat("rpiboot failed: ", m.as_str()),
        }
    }
}

/// The name of the `rpiboot` program on the platform.
pub fn binary_name(windows: bool) -> (res: &'static str)
    ensures
        res@ == (if windows {
            "rpiboot.exe"@
        } else {
            "rpiboot"@
        }),
{
    if windows {
        "rpiboot.exe"
    } else {
        "rpiboot"
    }
}

/// What a failed run reports: its error output, or its standard output
/// where the error output is empty.
pub fn failure_message(stderr: String, stdout: String) -> (res: Error)
    ensures
        res matches Error::ExecutionFailed(m) && m@ == (if stderr@.len() == 0 {
            stdout@
        } else {
            stderr@
        }),
{
    if text::chars_of(stderr.as_str()).len() == 0 {
        Error::ExecutionFailed(stdout)
    } else {
        Error::ExecutionFailed(stderr)
    }
}

/// ASCII lower case of each character.
pub open spec fn lower(s: Seq<char>) -> Seq<char> {
    s.map_values(|c: char| text::ascii_lower(c))
}

/// Messages that show `rpiboot` lacked the rights to claim the device.
pub open spec fn permission_problem(msg: Seq<char>) -> bool {
    let l = lower(msg);
    ||| text::contains(l, "permission denied"@)
    ||| text::contains(l, "operation not permitted"@)
    ||| text::contains(l, "could not claim interface"@)
    ||| text::contains(l, "access denied"@)
    ||| text::contains(l, "libusb_error_access"@)
}

/// Whether a failed run should be retried through `pkexec`: not already
/// root, and the failure reads (in any letter case) as a permission
/// problem. The phrases are ASCII without a `k`; the only other letter whose
/// Unicode lower case is ASCII, `İ`, becomes `i` followed by a combining
/// dot, which no phrase holds. So ASCII lower-casing finds the phrases
/// exactly where `str::to_lowercase` does.
pub fn should_retry_elevated(is_root: bool, err: &Error) -> (res: bool)
    ensures
        res == (!is_root && (err matches Error::ExecutionFailed(m) && permission_problem(m@))),
{
    if is_root {
        return false;
    }
    match err {
        Error::ExecutionFailed(msg) => {
            let v = text::chars_of(msg.as_str());
            let mut low: Vec<char> = Vec::new();
            let mut i: usize = 0;
            while i < v.len()
                invariant
                    i <= v@.len(),
                    low@ == lower(v@.take(i as int)),
                decreases v@.len() - i,
            {
                low.push(text::char_ascii_lower(v[i]));
                proof {
                    assert(lower(v@.take(i + 1)) =~= lower(v@.take(i as int)).push(
                        text::ascii_lower(v@[i as int]),
                    ));
                }
                i = i + 1;
            }
            proof {
                assert(v@.take(v@.len() as int) =~= v@);
            }
            text::contains_at(&low, "permission denied") || text::contains_at(
                &low,
                "operation not permitted",
            ) || text::contains_at(&low, "could not claim interface") || text::contains_at(
                &low,
                "access denied",
            ) || text::contains_at(&low, "libusb_error_access")
        },
        _ => false,
    }
}

/// The command that runs `binary` through `pkexec`, where `pkexec` is
/// there.
pub fn build_elevated_command(binary: &str, pkexec_available: bool) -> (res: Result<
    Invocation,
    Error,
>)
    ensures
        pkexec_available ==> (res matches Ok(c) && c.program@ == "pkexec"@ && text::views(c.args@)
            == seq![binary@]),
        !pkexec_available ==> res matches Err(Error::NoElevator),
{
    if pkexec_available {
        let mut args: Vec<String> = Vec::new();
        args.push(String::from_str(binary));
        proof {
            assert(text::views(args@) =~= seq![binary@]);
        }
        Ok(Invocation { program: String::from_str("pkexec"), args })
    } else {
        Err(Error::NoElevator)
    }
}

/// A message that holds, in any letter case, one of the phrases by which
/// libusb and the kernel report missing rights reads as a permission
/// problem, so a run that is not root is retried through `pkexec`.
pub proof fn law_permission_phrases_retried(msg: Seq<char>, phrase: Seq<char>)
    requires
        phrase == "permission denied"@ || phrase == "operation not permitted"@ || phrase
            == "could not claim interface"@ || phrase == "access denied"@ || phrase
            == "libusb_error_access"@,
        text::contains(lower(msg), phrase),
    ensures
        permission_problem(msg),
{
}

/// The phrases by which libusb and the kernel report missing rights.
pub open spec fn is_permission_phrase(phrase: Seq<char>) -> bool {
    phrase == "permission denied"@ || phrase == "operation not permitted"@ || phrase
        == "could not claim interface"@ || phrase == "access denied"@ || phrase
        == "libusb_error_access"@
}

/// A message that holds one of those phrases at position `i`, each letter
/// either as written or as its ASCII capital, reads as a permission
/// problem; a message that holds none of them, in lower case, does not.
pub proof fn law_permission_phrase_in_any_case(msg: Seq<char>, phrase: Seq<char>, i: int)
    ensures
        is_permission_phrase(phrase) && 0 <= i && i + phrase.len() <= msg.len() && (forall|k: int|
            0 <= k < phrase.len() ==> #[trigger] msg[i + k] == phrase[k] || ('a' <= phrase[k]
                <= 'z' && msg[i + k] as u32 + 32 == phrase[k] as u32)) ==> permission_problem(msg),
        (forall|p: Seq<char>| is_permission_phrase(p) ==> !text::contains(lower(msg), p))
            ==> !permission_problem(msg),
{
    if is_permission_phrase(phrase) && 0 <= i && i + phrase.len() <= msg.len() && (forall|k: int|
        0 <= k < phrase.len() ==> #[trigger] msg[i + k] == phrase[k] || ('a' <= phrase[k] <= 'z'
            && msg[i + k] as u32 + 32 == phrase[k] as u32)) {
        reveal_strlit("permission denied");
        reveal_strlit("operation not permitted");
        reveal_strlit("could not claim interface");
        reveal_strlit("access denied");
        reveal_strlit("libusb_error_access");
        let l = lower(msg);
        assert forall|k: int| 0 <= k < phrase.len() implies #[trigger] l.skip(i)[k] == phrase[k] by {
            assert(msg[i + k] == phrase[k] || ('a' <= phrase[k] <= 'z' && msg[i + k] as u32 + 32
                == phrase[k] as u32));
            assert(l[i + k] == text::ascii_lower(msg[i + k]));
            assert(!('A' <= phrase[k] && phrase[k] <= 'Z'));
        }
        assert(phrase.is_prefix_of(l.skip(i)));
        assert(text::contains(l, phrase));
    }
    assert(is_permission_phrase("permission denied"@));
    assert(is_permission_phrase("operation not permitted"@));
    assert(is_permission_phrase("could not claim interface"@));
    assert(is_permission_phrase("access denied"@));
    assert(is_permission_phrase("libusb_error_access"@));
}

} // verus!
