//! Decisions of the update daemon: whether an update is due, whether the
//! running boot is healthy enough to update from, what a pulled layer may be
//! named, and whether an image fits its device.

use vstd::prelude::*;

use crate::oci::{concat, LayerDescriptor, TITLE_ANNOTATION};
use crate::text;

verus! {

/// Whether a release differs from the version last installed.
pub fn needs_update(version: &str, current_version: &str) -> (res: bool)
    ensures
        res == (version@ != current_version@),
{
    !text::str_eq(version, current_version)
}

/// The line `check` prints: `up-to-date`, or `update-available <version>`.
pub open spec fn report(version: Seq<char>, current_version: Seq<char>) -> Seq<char> {
    if version == current_version {
        "up-to-date"@
    } else {
        "update-available "@ + version
    }
}

/// The line `check` prints.
pub fn check_report(version: &str, current_version: &str) -> (res: String)
    ensures
        res@ == report(version@, current_version@),
{
    if needs_update(version, current_version) {
        concat("update-available ", version)
    } else {
        String::from_str("up-to-date")
    }
}

/// A boot is healthy when systemd reports it `running` or `degraded`.
pub open spec fn healthy(status: Seq<char>) -> bool {
    status == "running"@ || status == "degraded"@
}

/// Refuses to update from an unhealthy boot, given the output of
/// `systemctl is-system-running`.
pub fn verify_boot_healthy(stdout: &str) -> (res: Result<(), String>)
    ensures
        match res {
            Ok(()) => healthy(text::trim(stdout@)),
            Err(m) => !healthy(text::trim(stdout@)) && m@ == "current boot is unhealthy ("@
                + text::trim(stdout@) + "); refusing to update (use --force to override)"@,
        },
{
    let status = text::trim_str(stdout);
    if text::str_eq(status.as_str(), "running") || text::str_eq(status.as_str(), "degraded") {
        Ok(())
    } else {
        let mut m = concat("current boot is unhealthy (", status.as_str());
        m.append("); refusing to update (use --force to override)");
        Err(m)
    }
}

/// A layer title that could reach outside the staging directory.
pub open spec fn unsafe_name(name: Seq<char>, separator: char) -> bool {
    text::contains(name, "/"@) || text::contains(name, ".."@) || name.contains(separator)
}

/// The file name a pulled layer is stored under: its title, which must be
/// there and must not contain a path separator or `..`. `separator` is the
/// platform's path separator.
pub fn layer_file_name(layer: &LayerDescriptor, separator: char) -> (res: Result<String, String>)
    ensures
        match crate::oci::annotation(layer.annotations, TITLE_ANNOTATION@) {
            None => res matches Err(m) && m@ == "layer missing title annotation"@,
            Some(t) => if unsafe_name(t, separator) {
                res matches Err(m) && m@ == "layer title contains unsafe path characters: "@ + t
            } else {
                res matches Ok(n) && n@ == t
            },
        },
{
    match crate::oci::annotation_value(&layer.annotations, TITLE_ANNOTATION) {
        None => Err(String::from_str("layer missing title annotation")),
        Some(name) => {
            let v = text::chars_of(name.as_str());
            let mut has_sep = false;
            let mut i: usize = 0;
            while i < v.len()
                invariant
                    i <= v@.len(),
                    has_sep == (exists|j: int| 0 <= j < i && v@[j] == separator),
                decreases v@.len() - i,
            {
                if v[i] == separator {
                    has_sep = true;
                }
                i = i + 1;
            }
            proof {
                if has_sep {
                    let j = choose|j: int| 0 <= j < v@.len() && v@[j] == separator;
                    assert(v@.contains(separator));
                }
            }
            if text::contains_at(&v, "/") || text::contains_at(&v, "..") || has_sep {
                Err(concat("layer title contains unsafe path characters: ", name.as_str()))
            } else {
                Ok(name.clone())
            }
        },
    }
}

/// Refuses an image larger than its target device.
pub fn check_capacity(image_size: u64, dev_size: u64, device: &str) -> (res: Result<(), String>)
    ensures
        match res {
            Ok(()) => image_size <= dev_size,
            Err(m) => image_size > dev_size && m@ == "image ("@ + text::decimal(image_size as nat)
                + " bytes) exceeds "@ + device@ + " capacity ("@ + text::decimal(dev_size as nat)
                + " bytes)"@,
        },
{
    if image_size > dev_size {
        let mut m = concat("image (", text::u64_decimal(image_size).as_str());
        m.append(" bytes) exceeds ");
        m.append(device);
        m.append(" capacity (");
        m.append(text::u64_decimal(dev_size).as_str());
        m.append(" bytes)");
        Err(m)
    } else {
        Ok(())
    }
}

/// The device size that `blockdev --getsize64` printed.
pub fn parse_device_size(stdout: &str) -> (res: Result<u64, String>)
    ensures
        match res {
            Ok(n) => text::parse_u64(text::trim(stdout@)) == Some(n),
            Err(m) => text::parse_u64(text::trim(stdout@)).is_none() && m@ == "parse size: "@
                + text::trim(stdout@),
        },
{
    let t = text::trim_str(stdout);
    let v = text::chars_of(t.as_str());
    proof {
        assert(v@.subrange(0, v@.len() as int) =~= v@);
    }
    match text::parse_u64_at(&v, 0, v.len()) {
        Some(n) => Ok(n),
        None => Err(concat("parse size: ", t.as_str())),
    }
}

/// A boot is healthy exactly when systemd's state is `running` or
/// `degraded`.
pub proof fn law_healthy_states(status: Seq<char>)
    ensures
        healthy(status) <==> (crate::systemctl::state_named(status) == Some(
            crate::systemctl::SystemState::Running,
        ) || crate::systemctl::state_named(status) == Some(crate::systemctl::SystemState::Degraded)),
{
    reveal_strlit("initializing");
    reveal_strlit("starting");
    reveal_strlit("running");
    reveal_strlit("degraded");
    reveal_strlit("maintenance");
    reveal_strlit("stopping");
    reveal_strlit("offline");
    reveal_strlit("unknown");
    assert("running"@ != "initializing"@) by {
        assert("running"@.len() != "initializing"@.len());
    }
    assert("running"@ != "starting"@) by {
        assert("running"@.len() != "starting"@.len());
    }
    assert("degraded"@ != "initializing"@) by {
        assert("degraded"@.len() != "initializing"@.len());
    }
    assert("degraded"@ != "starting"@) by {
        assert("degraded"@[0] != "starting"@[0]);
    }
    assert("degraded"@ != "running"@) by {
        assert("degraded"@.len() != "running"@.len());
    }
}

} // verus!
