//! Exit codes of fsck(8)

use vstd::prelude::*;
use vstd::string::*;

use crate::text::{dec_int_of, decimal_i32, join, join_of};

verus! {

/// Type-safe wrapper for fsck(8) exit codes.
///
/// The value is a bitmask; individual bits can be tested with the predicate
/// methods below. `UNKNOWN` (-1) is set only when fsck cannot be executed at
/// all (spawn failure); signal-killed processes map to `OPERATIONAL_ERROR`
/// via `From<Option<i32>>`.
#[derive(Debug, Clone, Copy, PartialEq, Eq, Structural)]
pub struct FsckExitCode(pub i32);

/// The name of a bit, listed where the bit is set.
pub open spec fn named_bit(code: i32, mask: i32, name: Seq<char>) -> Seq<Seq<char>> {
    if code & mask != 0 {
        seq![name]
    } else {
        Seq::empty()
    }
}

/// The names of the set bits that have one, from the lowest bit up.
pub open spec fn named_bits(code: i32) -> Seq<Seq<char>> {
    named_bit(code, 1, "errors corrected"@) + named_bit(code, 2, "reboot required"@) + named_bit(
        code,
        4,
        "uncorrected errors"@,
    ) + named_bit(code, 8, "operational error"@) + named_bit(code, 16, "usage error"@) + named_bit(
        code,
        32,
        "cancelled"@,
    ) + named_bit(code, 128, "library error"@)
}

fn list_bit(parts: &mut Vec<String>, set: bool, name: &str)
    ensures
        final(parts).deep_view() == old(parts).deep_view() + (if set {
            seq![name@]
        } else {
            Seq::empty()
        }),
{
    if set {
        parts.push(name.to_owned());
    }
    assert(parts.deep_view() =~= old(parts).deep_view() + (if set {
        seq![name@]
    } else {
        Seq::empty()
    }));
}

impl FsckExitCode {
    /// No errors detected.
    pub const OK: i32 = 0;

    /// Filesystem errors corrected (safe to mount with `-y`).
    pub const CORRECTED: i32 = 1;

    /// System should be rebooted before mounting.
    pub const REBOOT_REQUIRED: i32 = 2;

    /// Filesystem errors left uncorrected.
    pub const ERRORS_UNCORRECTED: i32 = 4;

    /// Operational error in fsck itself.
    pub const OPERATIONAL_ERROR: i32 = 8;

    /// Usage or syntax error.
    pub const USAGE_ERROR: i32 = 16;

    /// Cancelled by user request.
    pub const CANCELLED: i32 = 32;

    /// Shared library error.
    pub const LIBRARY_ERROR: i32 = 128;

    /// Sentinel: set only when fsck cannot be executed at all (spawn failure).
    pub const UNKNOWN: i32 = -1;

    /// What the code says, in words.
    pub open spec fn text(self) -> Seq<char> {
        if self.0 == -1 {
            "unknown (fsck could not be spawned)"@
        } else if self.0 == 0 {
            "No errors"@
        } else if named_bits(self.0).len() == 0 {
            "unknown error (code "@ + dec_int_of(self.0 as int) + ")"@
        } else {
            join_of(named_bits(self.0), ", "@)
        }
    }

    /// The code of a process that ended with the given exit status.
    pub open spec fn of_status(code: Option<i32>) -> Self {
        match code {
            Some(c) => FsckExitCode(c),
            None => FsckExitCode(8),
        }
    }

    /// Safe to mount: clean, or errors corrected and nothing else.
    pub open spec fn mount_safe(self) -> bool {
        self.0 == 0 || self.0 == 1
    }

    /// The reboot bit is set.
    pub open spec fn wants_reboot(self) -> bool {
        self.0 & 2 != 0
    }

    /// The raw integer value (for wire-format serialization).
    pub fn bits(self) -> (r: i32)
        ensures
            r == self.0,
    {
        self.0
    }

    pub fn is_clean(self) -> (r: bool)
        ensures
            r == (self.0 == 0),
    {
        self.0 == 0
    }

    /// Returns `true` if the corrected-errors bit (bit 0) is set.
    ///
    /// This is a bitmask test, not equality with `CORRECTED`. A code of 5
    /// (CORRECTED | ERRORS_UNCORRECTED) returns `true` here even though the
    /// filesystem is not safe to mount. Use `is_mount_safe` for mount decisions.
    pub fn has_corrected_bit(self) -> (r: bool)
        ensures
            r == (self.0 & 1 != 0),
    {
        self.0 & 1 != 0
    }

    pub fn is_reboot_required(self) -> (r: bool)
        ensures
            r == self.wants_reboot(),
    {
        self.0 & 2 != 0
    }

    pub fn has_uncorrected_errors(self) -> (r: bool)
        ensures
            r == (self.0 & 4 != 0),
    {
        self.0 & 4 != 0
    }

    pub fn has_operational_error(self) -> (r: bool)
        ensures
            r == (self.0 & 8 != 0),
    {
        self.0 & 8 != 0
    }

    pub fn is_usage_error(self) -> (r: bool)
        ensures
            r == (self.0 & 16 != 0),
    {
        self.0 & 16 != 0
    }

    pub fn is_cancelled(self) -> (r: bool)
        ensures
            r == (self.0 & 32 != 0),
    {
        self.0 & 32 != 0
    }

    pub fn is_library_error(self) -> (r: bool)
        ensures
            r == (self.0 & 128 != 0),
    {
        self.0 & 128 != 0
    }

    /// Returns `true` if the filesystem is safe to mount.
    ///
    /// Strict equality: only codes 0 (clean) and 1 (errors corrected by -y) are
    /// safe. Combined codes such as 3 (CORRECTED | REBOOT_REQUIRED) or 5
    /// (CORRECTED | ERRORS_UNCORRECTED) are rejected even though the corrected-bit
    /// is set.
    pub fn is_mount_safe(self) -> (r: bool)
        ensures
            r == self.mount_safe(),
    {
        self.0 == Self::OK || self.0 == Self::CORRECTED
    }

    /// What the code says, in words.
    pub fn to_string(&self) -> (s: String)
        ensures
            s@ == self.text(),
    {
        if self.0 == Self::UNKNOWN {
            return String::from_str("unknown (fsck could not be spawned)");
        }
        if self.is_clean() {
            return String::from_str("No errors");
        }
        let mut parts: Vec<String> = Vec::new();
        assert(parts.deep_view() =~= Seq::<Seq<char>>::empty());
        list_bit(&mut parts, self.has_corrected_bit(), "errors corrected");
        list_bit(&mut parts, self.is_reboot_required(), "reboot required");
        list_bit(&mut parts, self.has_uncorrected_errors(), "uncorrected errors");
        list_bit(&mut parts, self.has_operational_error(), "operational error");
        list_bit(&mut parts, self.is_usage_error(), "usage error");
        list_bit(&mut parts, self.is_cancelled(), "cancelled");
        list_bit(&mut parts, self.is_library_error(), "library error");
        assert(parts.deep_view() =~= named_bits(self.0));
        if parts.len() == 0 {
            let mut s = String::from_str("unknown error (code ");
            s.append(decimal_i32(self.0).as_str());
            s.append(")");
            s
        } else {
            join(&parts, ", ")
        }
    }
}

impl From<i32> for FsckExitCode {
    fn from(code: i32) -> (r: Self) {
        FsckExitCode(code)
    }
}

impl vstd::std_specs::convert::FromSpecImpl<i32> for FsckExitCode {
    open spec fn obeys_from_spec() -> bool {
        true
    }

    open spec fn from_spec(code: i32) -> Self {
        FsckExitCode(code)
    }
}

impl From<Option<i32>> for FsckExitCode {
    /// Construct from process exit status.
    /// `None` means killed by signal — mapped to `OPERATIONAL_ERROR` to avoid
    /// the two's-complement all-bits-set footgun of the `UNKNOWN` sentinel.
    fn from(code: Option<i32>) -> (r: Self) {
        match code {
            Some(c) => FsckExitCode(c),
            None => FsckExitCode(Self::OPERATIONAL_ERROR),
        }
    }
}

impl vstd::std_specs::convert::FromSpecImpl<Option<i32>> for FsckExitCode {
    open spec fn obeys_from_spec() -> bool {
        true
    }

    open spec fn from_spec(code: Option<i32>) -> Self {
        FsckExitCode::of_status(code)
    }
}

/// A filesystem that is safe to mount needs no reboot and has no errors left; a
/// clean one has no bit set at all.
pub proof fn law_mount_safe_codes(code: FsckExitCode)
    ensures
        code.mount_safe() ==> !code.wants_reboot() && code.0 & 4 == 0 && code.0 & 8 == 0,
        code.0 == 0 ==> named_bits(code.0) == Seq::<Seq<char>>::empty(),
{
    let c = code.0;
    assert(c == 0 ==> c & 1 == 0 && c & 2 == 0 && c & 4 == 0 && c & 8 == 0 && c & 16 == 0 && c & 32 == 0
        && c & 128 == 0) by (bit_vector);
    assert(c == 1 ==> c & 2 == 0 && c & 4 == 0 && c & 8 == 0) by (bit_vector);
    if c == 0 {
        assert(named_bits(c) =~= Seq::<Seq<char>>::empty());
    }
}

} // verus!
