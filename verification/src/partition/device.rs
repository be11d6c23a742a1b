//! Root device detection from kernel command line.
//!
//! Supports two omnect-os boot paths depending on the bootloader:
//!
//! - **GRUB** (`rootpart=N` + `bootpart_fsuuid=<uuid>`): GRUB probes the filesystem
//!   UUID of its boot partition via `probe --fs-uuid` and passes it as `bootpart_fsuuid=`
//!   on the kernel cmdline. `blkid` resolves it to the exact boot partition device;
//!   stripping the partition suffix gives the base disk.
//!
//! - **U-Boot** (`root=/dev/<device>`): full device path set by U-Boot bootargs
//!   (e.g. `root=/dev/mmcblk1p2`). Base device and separator are derived from the path.

use vstd::prelude::*;
use vstd::string::*;
use vstd::utf8::*;

use crate::bytes::utf8_text;
use crate::error::{concat2, concat3, concat4, PartitionError};
use crate::path::{file_name, file_name_of, join, joined};
use crate::system::{
    bytes_of, flag_of, millis_of, outcome, text_of, ReplyView, Request, RequestView, Session, Stop, Transcript,
};
use crate::text::{
    all_digits, contains, contains_text, dec_of, decimal, digit, digits_start, is_digit, lemma_run_back_is, lines,
    lines_of, other_than, parse_u32, parse_u32_of, run_back, same, slice, split_once, split_once_of,
    starts_with, starts_with_text, strip_prefix, strip_prefix_of, to_chars, trim, trim_char, trim_char_of, trim_of, words,
    words_of,
};

verus! {

/// Represents the detected root block device and its properties.
#[derive(Debug, Clone)]
pub struct RootDevice<S = String> {
    /// Base block device path (e.g., `/dev/sda`, `/dev/nvme0n1`, `/dev/mmcblk0`)
    pub base: S,
    /// Partition separator ("" for sda/vda, "p" for nvme0n1/mmcblk0)
    pub partition_sep: S,
    /// Root partition device path (e.g., `/dev/sda2`, `/dev/mmcblk0p2`)
    pub root_partition: S,
}

impl View for RootDevice {
    type V = RootDevice<Seq<char>>;

    open spec fn view(&self) -> RootDevice<Seq<char>> {
        RootDevice {
            base: self.base@,
            partition_sep: self.partition_sep@,
            root_partition: self.root_partition@,
        }
    }
}

impl RootDevice<Seq<char>> {
    /// The path to partition `n`.
    pub open spec fn path_of(self, n: nat) -> Seq<char> {
        self.base + self.partition_sep + dec_of(n)
    }
}

impl RootDevice {
    /// Constructs the path to a specific partition number.
    pub fn partition_path(&self, partition_num: u32) -> (r: String)
        ensures
            r@ == self@.path_of(partition_num as nat),
    {
        crate::error::concat3(
            self.base.as_str(),
            self.partition_sep.as_str(),
            decimal(partition_num as u64).as_str(),
        )
    }
}

/// How long to wait for a block device, in milliseconds.
pub const DEVICE_WAIT_TIMEOUT_MS: u64 = 30000;

/// How long to sleep between two looks for a block device, in milliseconds.
pub const DEVICE_POLL_INTERVAL_MS: u64 = 100;

/// An error of root device detection by view.
pub type PartitionErrorView = PartitionError<Seq<char>>;

/// A detected root device by view.
pub type RootDeviceView = RootDevice<Seq<char>>;

/// The value of the first word of `ws` from position `i` on that is `key=value`.
pub open spec fn first_value(ws: Seq<Seq<char>>, key: Seq<char>, i: int) -> Option<Seq<char>>
    decreases ws.len() - i,
{
    if i < 0 || i >= ws.len() {
        None
    } else {
        match strip_prefix_of(ws[i], key + "="@) {
            Some(value) => Some(trim_char_of(value, '"')),
            None => first_value(ws, key, i + 1),
        }
    }
}

/// The value of a kernel parameter: of its first occurrence, without quotes.
pub open spec fn param_of(cmdline: Seq<char>, key: Seq<char>) -> Option<Seq<char>> {
    first_value(words_of(cmdline), key, 0)
}

/// Parses a parameter value from kernel command line.
///
/// Handles `key=value` format. Values containing spaces are not supported
/// (the kernel cmdline splits on whitespace; quoted values with spaces
/// would be split into multiple tokens).
pub fn parse_cmdline_param(cmdline: &str, key: &str) -> (r: Result<Option<String>, PartitionError>)
    ensures
        r matches Ok(v) && v.deep_view() == param_of(cmdline@, key@),
{
    let prefix = concat2(key, "=");
    let tokens = words(cmdline);
    let mut i: usize = 0;
    while i < tokens.len()
        invariant
            i <= tokens@.len(),
            tokens.deep_view() == words_of(cmdline@),
            prefix@ == key@ + "="@,
            first_value(words_of(cmdline@), key@, i as int) == param_of(cmdline@, key@),
        decreases tokens.len() - i,
    {
        assert(tokens.deep_view()[i as int] == tokens@[i as int]@);
        match strip_prefix(tokens[i].as_str(), prefix.as_str()) {
            Some(value) => {
                return Ok(Some(trim_char(value.as_str(), '"')));
            },
            None => {},
        }
        i = i + 1;
    }
    Ok(None)
}

/// One of the fields of a line, which are separated by whitespace, is `field`.
pub open spec fn has_field(line: Seq<char>, field: Seq<char>) -> bool {
    exists|k: int| 0 <= k < words_of(line).len() && #[trigger] words_of(line)[k] == field
}

fn find_field(line: &str, field: &str) -> (r: bool)
    ensures
        r == has_field(line@, field@),
{
    let fields = words(line);
    let mut k: usize = 0;
    while k < fields.len()
        invariant
            k <= fields@.len(),
            fields.deep_view() == words_of(line@),
            forall|j: int| 0 <= j < k ==> #[trigger] words_of(line@)[j] != field@,
        decreases fields.len() - k,
    {
        assert(words_of(line@)[k as int] == fields@[k as int]@);
        if same(fields[k].as_str(), field) {
            return true;
        }
        k = k + 1;
    }
    false
}

/// The device of the first of `ls` from position `i` on that has the field `needle`.
pub open spec fn device_of_line(ls: Seq<Seq<char>>, needle: Seq<char>, i: int) -> Option<Seq<char>>
    decreases ls.len() - i,
{
    if i < 0 || i >= ls.len() {
        None
    } else if has_field(ls[i], needle) {
        Some(
            trim_of(
                match split_once_of(ls[i], ':') {
                    Some((head, _)) => head,
                    None => ls[i],
                },
            ),
        )
    } else {
        device_of_line(ls, needle, i + 1)
    }
}

/// The device whose line in the output of `blkid` has a `UUID=` field with the filesystem
/// UUID.
pub open spec fn blkid_device(output: Seq<char>, fsuuid: Seq<char>) -> Option<Seq<char>> {
    device_of_line(lines_of(output), "UUID=\""@ + fsuuid + "\""@, 0)
}

/// Parses busybox `blkid` output (no arguments) and returns the device path
/// whose `UUID=` field matches `fsuuid`.
///
/// Each line has the format:
///   `/dev/sda1: UUID="xxxx-xxxx" TYPE="vfat" ...`
pub fn parse_blkid_output(output: &str, fsuuid: &str) -> (r: Result<String, PartitionError>)
    ensures
        match r {
            Ok(dev) => blkid_device(output@, fsuuid@) == Some(dev@),
            Err(e) => blkid_device(output@, fsuuid@) is None && e@ == PartitionErrorView::DeviceDetection(
                "blkid found no device with UUID="@ + fsuuid@,
            ),
        },
{
    let needle = concat3("UUID=\"", fsuuid, "\"");
    let ls = lines(output);
    let mut i: usize = 0;
    while i < ls.len()
        invariant
            i <= ls@.len(),
            ls.deep_view() == lines_of(output@),
            needle@ == "UUID=\""@ + fsuuid@ + "\""@,
            device_of_line(lines_of(output@), needle@, i as int) == blkid_device(output@, fsuuid@),
        decreases ls.len() - i,
    {
        assert(ls.deep_view()[i as int] == ls@[i as int]@);
        if find_field(ls[i].as_str(), needle.as_str()) {
            return match split_once(ls[i].as_str(), ':') {
                Some((head, _)) => Ok(trim(head.as_str())),
                None => Ok(trim(ls[i].as_str())),
            };
        }
        i = i + 1;
    }
    Err(PartitionError::DeviceDetection(concat2("blkid found no device with UUID=", fsuuid)))
}

/// Position of the last `p` in `name`, counted from the front; -1 if there is none.
pub open spec fn last_p(name: Seq<char>) -> int {
    name.len() - run_back(name, other_than('p')) - 1
}

/// A partition of an NVMe or MMC device: the number follows a `p`.
pub open spec fn has_p_suffix(name: Seq<char>) -> bool {
    &&& contains_text(name, "nvme"@) || starts_with_text(name, "mmcblk"@)
    &&& 0 <= last_p(name) < name.len() - 1
    &&& all_digits(name.skip(last_p(name) + 1))
}

/// The base device and the separator of a partition device name.
pub open spec fn split_suffix_of(name: Seq<char>) -> Result<(Seq<char>, Seq<char>), PartitionErrorView> {
    let base_end = name.len() - run_back(name, digit());
    if has_p_suffix(name) {
        Ok((name.take(last_p(name)), "p"@))
    } else if 0 < base_end < name.len() {
        Ok((name.take(base_end), Seq::empty()))
    } else {
        Err(PartitionError::DeviceDetection("could not derive base device from: "@ + name))
    }
}

/// Splits a partition device name into `(base_name, separator)`.
///
/// Examples: `"sda2"` → `("sda", "")`, `"mmcblk1p2"` → `("mmcblk1", "p")`
pub fn split_partition_suffix(name: &str) -> (r: Result<(String, String), PartitionError>)
    ensures
        match r {
            Ok(p) => split_suffix_of(name@) == Ok::<(Seq<char>, Seq<char>), PartitionErrorView>((p.0@, p.1@)),
            Err(e) => split_suffix_of(name@) == Err::<(Seq<char>, Seq<char>), PartitionErrorView>(e@),
        },
{
    let v = to_chars(name);
    let digits_from = digits_start(&v);
    // NVMe / MMC: partition number follows a "p" separator
    if contains(name, "nvme") || starts_with(name, "mmcblk") {
        let mut pos: usize = v.len();
        while pos > 0 && v[pos - 1] != 'p'
            invariant
                pos <= v@.len(),
                forall|j: int| pos <= j < v@.len() ==> v@[j] != 'p',
            decreases pos,
        {
            pos = pos - 1;
        }
        proof {
            lemma_run_back_is(v@, other_than('p'), (v@.len() - pos) as nat);
            crate::text::lemma_run_back(v@, digit());
            if pos < digits_from {
                assert(!is_digit(v@[digits_from - 1]));
                assert(v@.skip(pos as int)[digits_from - 1 - pos] == v@[digits_from - 1]);
            }
        }
        if pos > 0 && pos < v.len() && digits_from <= pos {
            assert(v@.subrange(0, pos - 1) =~= v@.take(pos - 1));
            return Ok((slice(&v, 0, pos - 1), String::from_str("p")));
        }
    }
    // SATA / virtio: partition number appended directly (e.g. sda2, vda2)
    if digits_from > 0 && digits_from < v.len() {
        assert(v@.subrange(0, digits_from as int) =~= v@.take(digits_from as int));
        return Ok((slice(&v, 0, digits_from), String::new()));
    }
    Err(PartitionError::DeviceDetection(concat2("could not derive base device from: ", name)))
}

/// The root device on the disk of the boot partition `boot_part`.
pub open spec fn device_beside(boot_part: Seq<char>, part_num: nat) -> Result<RootDeviceView, PartitionErrorView> {
    match file_name_of(boot_part) {
        None => Err(PartitionError::DeviceDetection("invalid blkid output: "@ + boot_part)),
        Some(name) => match split_suffix_of(name) {
            Err(e) => Err(e),
            Ok((base, sep)) => Ok(
                RootDevice {
                    base: joined("/dev"@, base),
                    partition_sep: sep,
                    root_partition: "/dev/"@ + base + sep + dec_of(part_num),
                },
            ),
        },
    }
}

/// Builds a `RootDevice` from the device path of the boot partition and the number
/// of the root partition on the same disk (GRUB boot path).
pub fn root_device_from_blkid(boot_part: &str, part_num: u32) -> (r: Result<RootDevice, PartitionError>)
    ensures
        match r {
            Ok(d) => device_beside(boot_part@, part_num as nat) == Ok::<RootDeviceView, PartitionErrorView>(d@),
            Err(e) => device_beside(boot_part@, part_num as nat) == Err::<RootDeviceView, PartitionErrorView>(
                e@,
            ),
        },
{
    let name = match file_name(boot_part) {
        Some(name) => name,
        None => {
            return Err(PartitionError::DeviceDetection(concat2("invalid blkid output: ", boot_part)));
        },
    };
    match split_partition_suffix(name.as_str()) {
        Err(e) => Err(e),
        Ok((base_name, sep)) => {
            let root_partition = concat4(
                "/dev/",
                base_name.as_str(),
                sep.as_str(),
                decimal(part_num as u64).as_str(),
            );
            Ok(RootDevice { base: join("/dev", base_name.as_str()), partition_sep: sep, root_partition })
        },
    }
}

/// The root device of which `path` is the root partition.
pub open spec fn device_at(path: Seq<char>) -> Result<RootDeviceView, PartitionErrorView> {
    match file_name_of(path) {
        None => Err(PartitionError::DeviceDetection("invalid device path: "@ + path)),
        Some(name) => match split_suffix_of(name) {
            Err(e) => Err(e),
            Ok((base, sep)) => Ok(
                RootDevice { base: joined("/dev"@, base), partition_sep: sep, root_partition: path },
            ),
        },
    }
}

/// Builds a `RootDevice` from a full `root=/dev/<device>` path (U-Boot boot path).
pub fn parse_device_path(path: &str) -> (r: Result<RootDevice, PartitionError>)
    ensures
        match r {
            Ok(d) => device_at(path@) == Ok::<RootDeviceView, PartitionErrorView>(d@),
            Err(e) => device_at(path@) == Err::<RootDeviceView, PartitionErrorView>(e@),
        },
{
    let name = match file_name(path) {
        Some(name) => name,
        None => {
            return Err(PartitionError::DeviceDetection(concat2("invalid device path: ", path)));
        },
    };
    match split_partition_suffix(name.as_str()) {
        Err(e) => Err(e),
        Ok((base_name, sep)) => Ok(
            RootDevice {
                base: join("/dev", base_name.as_str()),
                partition_sep: sep,
                root_partition: path.to_owned(),
            },
        ),
    }
}

/// Milliseconds from `start` to `now`.
pub open spec fn elapsed_of(start: u64, now: u64) -> int {
    if now >= start {
        now - start
    } else {
        0
    }
}

fn elapsed(start: u64, now: u64) -> (r: u64)
    ensures
        r == elapsed_of(start, now),
{
    if now >= start {
        now - start
    } else {
        0
    }
}

/// Looks for the device until it is there or the time since `start` is over.
pub open spec fn waiting(t: Transcript, device: Seq<char>, start: u64) -> (
    Transcript,
    Result<(), Stop<PartitionErrorView>>,
)
    decreases t.rest.len(),
{
    let t1 = t.ask(Request::Exists(device));
    match t.next() {
        None => (t1, Err(Stop::Pending)),
        Some(there) => if flag_of(there) {
            (t1, Ok(()))
        } else {
            let t2 = t1.ask(Request::Clock);
            match t1.next() {
                None => (t2, Err(Stop::Pending)),
                Some(now) => if elapsed_of(start, millis_of(now)) > DEVICE_WAIT_TIMEOUT_MS {
                    (
                        t2,
                        Err(
                            Stop::Failed(
                                PartitionError::DeviceDetection(
                                    "device "@ + device + " did not appear within 30 seconds"@,
                                ),
                            ),
                        ),
                    )
                } else {
                    let t3 = t2.ask(Request::Sleep(DEVICE_POLL_INTERVAL_MS));
                    match t2.next() {
                        None => (t3, Err(Stop::Pending)),
                        Some(_) => waiting(t3, device, start),
                    }
                },
            }
        },
    }
}

/// Waits until the device is there.
pub open spec fn waited(t: Transcript, device: Seq<char>) -> (
    Transcript,
    Result<(), Stop<PartitionErrorView>>,
) {
    let t1 = t.ask(Request::Clock);
    match t.next() {
        None => (t1, Err(Stop::Pending)),
        Some(start) => waiting(t1, device, millis_of(start)),
    }
}

/// Waits until the device is there, up to a timeout.
pub fn wait_for_device(device: &str, sys: &mut Session) -> (r: Result<(), Stop<PartitionError>>)
    ensures
        (final(sys)@, outcome(r)) == waited(old(sys)@, device@),
{
    let start = match sys.clock() {
        Some(n) => n,
        None => {
            return Err(Stop::Pending);
        },
    };
    loop
        invariant
            waiting(sys@, device@, start) == waited(old(sys)@, device@),
        decreases sys@.rest.len(),
    {
        match sys.query(Request::Exists(device.to_owned())) {
            None => {
                return Err(Stop::Pending);
            },
            Some(true) => {
                return Ok(());
            },
            Some(false) => {},
        }
        let now = match sys.clock() {
            Some(n) => n,
            None => {
                return Err(Stop::Pending);
            },
        };
        if elapsed(start, now) > DEVICE_WAIT_TIMEOUT_MS {
            return Err(
                Stop::Failed(
                    PartitionError::DeviceDetection(
                        concat3("device ", device, " did not appear within 30 seconds"),
                    ),
                ),
            );
        }
        match sys.ask(Request::Sleep(DEVICE_POLL_INTERVAL_MS)) {
            None => {
                return Err(Stop::Pending);
            },
            Some(_) => {},
        }
    }
}

/// The request that runs `blkid`.
pub open spec fn blkid_request() -> RequestView {
    Request::Pipe { program: "/sbin/blkid"@, args: Seq::empty(), input: Seq::empty() }
}

/// What one run of `blkid` says about the filesystem UUID.
pub open spec fn blkid_says(reply: ReplyView, fsuuid: Seq<char>) -> Result<Option<Seq<char>>, PartitionErrorView> {
    match bytes_of(reply) {
        Err(e) => Err(PartitionError::DeviceDetection("failed to run blkid: "@ + e.text())),
        Ok((_, stdout)) => if valid_utf8(stdout) {
            Ok(blkid_device(decode_utf8(stdout), fsuuid))
        } else {
            Err(PartitionError::DeviceDetection("blkid output is not UTF-8"@))
        },
    }
}

/// Runs `blkid` until it shows the filesystem UUID or the time since `start` is over.
pub open spec fn polling(t: Transcript, fsuuid: Seq<char>, start: u64) -> (
    Transcript,
    Result<Seq<char>, Stop<PartitionErrorView>>,
)
    decreases t.rest.len(),
{
    let t1 = t.ask(blkid_request());
    match t.next() {
        None => (t1, Err(Stop::Pending)),
        Some(reply) => match blkid_says(reply, fsuuid) {
            Err(e) => (t1, Err(Stop::Failed(e))),
            Ok(Some(device)) => (t1, Ok(device)),
            Ok(None) => {
                let t2 = t1.ask(Request::Clock);
                match t1.next() {
                    None => (t2, Err(Stop::Pending)),
                    Some(now) => if elapsed_of(start, millis_of(now)) >= DEVICE_WAIT_TIMEOUT_MS {
                        (
                            t2,
                            Err(
                                Stop::Failed(
                                    PartitionError::DeviceDetection(
                                        "blkid found no device with UUID="@ + fsuuid + " within 30s"@,
                                    ),
                                ),
                            ),
                        )
                    } else {
                        let t3 = t2.ask(Request::Sleep(DEVICE_POLL_INTERVAL_MS));
                        match t2.next() {
                            None => (t3, Err(Stop::Pending)),
                            Some(_) => polling(t3, fsuuid, start),
                        }
                    },
                }
            },
        },
    }
}

/// Resolves the filesystem UUID of the boot partition, then waits for the root
/// partition on the same disk.
pub open spec fn resolved(t: Transcript, fsuuid: Seq<char>, part_num: nat) -> (
    Transcript,
    Result<RootDeviceView, Stop<PartitionErrorView>>,
) {
    let t1 = t.ask(Request::Clock);
    match t.next() {
        None => (t1, Err(Stop::Pending)),
        Some(start) => {
            let (t2, found) = polling(t1, fsuuid, millis_of(start));
            match found {
                Err(e) => (t2, Err(e)),
                Ok(boot_part) => match device_beside(boot_part, part_num) {
                    Err(e) => (t2, Err(Stop::Failed(e))),
                    Ok(device) => {
                        let (t3, there) = waited(t2, device.root_partition);
                        match there {
                            Err(e) => (t3, Err(e)),
                            Ok(_) => (t3, Ok(device)),
                        }
                    },
                },
            }
        },
    }
}

/// Resolves the boot disk via the filesystem UUID of the boot partition (`bootpart_fsuuid=`).
///
/// GRUB runs `probe --fs-uuid` on `${root}` (the boot partition) and passes the result
/// on the kernel cmdline. `blkid` is retried in a loop until the UUID is found or the
/// timeout expires — block devices may not be ready immediately at initramfs startup.
pub fn device_from_fsuuid(fsuuid: &str, part_num: u32, sys: &mut Session) -> (r: Result<
    RootDevice,
    Stop<PartitionError>,
>)
    ensures
        (final(sys)@, outcome(r)) == resolved(old(sys)@, fsuuid@, part_num as nat),
{
    let start = match sys.clock() {
        Some(n) => n,
        None => {
            return Err(Stop::Pending);
        },
    };
    let ghost t1 = sys@;
    let boot_part: String;
    loop
        invariant_except_break
            polling(sys@, fsuuid@, start) == polling(t1, fsuuid@, start),
        invariant
            t1 == old(sys)@.ask(Request::Clock),
            old(sys)@.next() is Some && start == millis_of(old(sys)@.next()->0),
        ensures
            polling(t1, fsuuid@, start) == (sys@, Ok::<Seq<char>, Stop<PartitionErrorView>>(boot_part@)),
        decreases sys@.rest.len(),
    {
        // busybox blkid does not support -t / -o arguments; run without args
        // and parse the output here.
        let args: Vec<String> = Vec::new();
        let input: Vec<u8> = Vec::new();
        assert(args.deep_view() =~= Seq::<Seq<char>>::empty());
        assert(input@ =~= Seq::<u8>::empty());
        let stdout = match sys.pipe(
            Request::Pipe { program: String::from_str("/sbin/blkid"), args, input },
        ) {
            None => {
                return Err(Stop::Pending);
            },
            Some(Err(e)) => {
                return Err(
                    Stop::Failed(
                        PartitionError::DeviceDetection(
                            concat2("failed to run blkid: ", e.to_string().as_str()),
                        ),
                    ),
                );
            },
            Some(Ok((_, stdout))) => stdout,
        };
        let text = match utf8_text(stdout) {
            Ok(text) => text,
            Err(_) => {
                return Err(
                    Stop::Failed(
                        PartitionError::DeviceDetection(String::from_str("blkid output is not UTF-8")),
                    ),
                );
            },
        };
        match parse_blkid_output(text.as_str(), fsuuid) {
            Ok(device) => {
                boot_part = device;
                break;
            },
            Err(_) => {},
        }
        let now = match sys.clock() {
            Some(n) => n,
            None => {
                return Err(Stop::Pending);
            },
        };
        if elapsed(start, now) >= DEVICE_WAIT_TIMEOUT_MS {
            return Err(
                Stop::Failed(
                    PartitionError::DeviceDetection(
                        concat3("blkid found no device with UUID=", fsuuid, " within 30s"),
                    ),
                ),
            );
        }
        match sys.ask(Request::Sleep(DEVICE_POLL_INTERVAL_MS)) {
            None => {
                return Err(Stop::Pending);
            },
            Some(_) => {},
        }
    }
    match root_device_from_blkid(boot_part.as_str(), part_num) {
        Err(e) => Err(Stop::Failed(e)),
        Ok(device) => match wait_for_device(device.root_partition.as_str(), sys) {
            Err(e) => Err(e),
            Ok(()) => Ok(device),
        },
    }
}

/// Waits for the root partition, then derives the root device from its path.
pub open spec fn from_path(t: Transcript, path: Seq<char>) -> (
    Transcript,
    Result<RootDeviceView, Stop<PartitionErrorView>>,
) {
    let (t1, there) = waited(t, path);
    match there {
        Err(e) => (t1, Err(e)),
        Ok(_) => match device_at(path) {
            Err(e) => (t1, Err(Stop::Failed(e))),
            Ok(device) => (t1, Ok(device)),
        },
    }
}

/// Waits for the root partition and derives the root device from its path (U-Boot
/// boot path).
pub fn device_from_path(path: &str, sys: &mut Session) -> (r: Result<RootDevice, Stop<PartitionError>>)
    ensures
        (final(sys)@, outcome(r)) == from_path(old(sys)@, path@),
{
    match wait_for_device(path, sys) {
        Err(e) => Err(e),
        Ok(()) => match parse_device_path(path) {
            Err(e) => Err(Stop::Failed(e)),
            Ok(device) => Ok(device),
        },
    }
}

/// The root device that a kernel command line names.
pub open spec fn detected_from(t: Transcript, cmdline: Seq<char>) -> (
    Transcript,
    Result<RootDeviceView, Stop<PartitionErrorView>>,
) {
    match param_of(cmdline, "rootpart"@) {
        Some(part) => match parse_u32_of(part) {
            Err(_) => (
                t,
                Err(
                    Stop::Failed(
                        PartitionError::DeviceDetection("rootpart= is not a valid partition number: "@ + part),
                    ),
                ),
            ),
            Ok(part_num) => match param_of(cmdline, "bootpart_fsuuid"@) {
                None => (
                    t,
                    Err(
                        Stop::Failed(
                            PartitionError::DeviceDetection(
                                "rootpart= present but bootpart_fsuuid= missing from cmdline"@,
                            ),
                        ),
                    ),
                ),
                Some(fsuuid) => resolved(t, fsuuid, part_num),
            },
        },
        None => match param_of(cmdline, "root"@) {
            Some(root) => if starts_with_text(root, "/dev/"@) {
                from_path(t, root)
            } else {
                (
                    t,
                    Err(
                        Stop::Failed(
                            PartitionError::DeviceDetection("root= must start with /dev/, got: "@ + root),
                        ),
                    ),
                )
            },
            None => (
                t,
                Err(
                    Stop::Failed(
                        PartitionError::DeviceDetection(
                            "neither rootpart= (GRUB) nor root= (U-Boot) found in kernel cmdline"@,
                        ),
                    ),
                ),
            ),
        },
    }
}

/// Reads the kernel command line and detects the root device that it names.
pub open spec fn detected(t: Transcript, cmdline_path: Seq<char>) -> (
    Transcript,
    Result<RootDeviceView, Stop<PartitionErrorView>>,
) {
    let t1 = t.ask(Request::ReadText(cmdline_path));
    match t.next() {
        None => (t1, Err(Stop::Pending)),
        Some(reply) => match text_of(reply) {
            Err(e) => (
                t1,
                Err(
                    Stop::Failed(
                        PartitionError::DeviceDetection("failed to read "@ + cmdline_path + ": "@ + e.text()),
                    ),
                ),
            ),
            Ok(cmdline) => detected_from(t1, cmdline),
        },
    }
}

/// Detects the root device by parsing kernel command line parameters.
pub fn detect_root_device(sys: &mut Session) -> (r: Result<RootDevice, Stop<PartitionError>>)
    ensures
        (final(sys)@, outcome(r)) == detected(old(sys)@, "/proc/cmdline"@),
{
    detect_root_device_from_cmdline("/proc/cmdline", sys)
}

/// Detects the root device from the kernel command line in the given file.
pub fn detect_root_device_from_cmdline(cmdline_path: &str, sys: &mut Session) -> (r: Result<
    RootDevice,
    Stop<PartitionError>,
>)
    ensures
        (final(sys)@, outcome(r)) == detected(old(sys)@, cmdline_path@),
{
    let cmdline = match sys.fetch(Request::ReadText(cmdline_path.to_owned())) {
        None => {
            return Err(Stop::Pending);
        },
        Some(Err(e)) => {
            return Err(
                Stop::Failed(
                    PartitionError::DeviceDetection(
                        concat4("failed to read ", cmdline_path, ": ", e.to_string().as_str()),
                    ),
                ),
            );
        },
        Some(Ok(cmdline)) => cmdline,
    };

    // GRUB: rootpart=N + bootpart_fsuuid=<uuid>
    // GRUB and initramfs always ship in the same image, so bootpart_fsuuid is
    // always present on GRUB boots — no fallback paths needed.
    match parse_cmdline_param(cmdline.as_str(), "rootpart") {
        Err(e) => {
            return Err(Stop::Failed(e));
        },
        Ok(Some(part)) => {
            let part_num: u32 = match parse_u32(part.as_str()) {
                Ok(n) => n,
                Err(_) => {
                    return Err(
                        Stop::Failed(
                            PartitionError::DeviceDetection(
                                concat2("rootpart= is not a valid partition number: ", part.as_str()),
                            ),
                        ),
                    );
                },
            };
            return match parse_cmdline_param(cmdline.as_str(), "bootpart_fsuuid") {
                Err(e) => Err(Stop::Failed(e)),
                Ok(None) => Err(
                    Stop::Failed(
                        PartitionError::DeviceDetection(
                            String::from_str("rootpart= present but bootpart_fsuuid= missing from cmdline"),
                        ),
                    ),
                ),
                Ok(Some(fsuuid)) => device_from_fsuuid(fsuuid.as_str(), part_num, sys),
            };
        },
        Ok(None) => {},
    }

    // U-Boot: root=/dev/<device> (full partition path in bootargs)
    match parse_cmdline_param(cmdline.as_str(), "root") {
        Err(e) => Err(Stop::Failed(e)),
        Ok(Some(root)) => {
            if !starts_with(root.as_str(), "/dev/") {
                return Err(
                    Stop::Failed(
                        PartitionError::DeviceDetection(
                            concat2("root= must start with /dev/, got: ", root.as_str()),
                        ),
                    ),
                );
            }
            device_from_path(root.as_str(), sys)
        },
        Ok(None) => Err(
            Stop::Failed(
                PartitionError::DeviceDetection(
                    String::from_str("neither rootpart= (GRUB) nor root= (U-Boot) found in kernel cmdline"),
                ),
            ),
        ),
    }
}

} // verus!
