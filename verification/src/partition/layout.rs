//! Partition layout
//!
//! Builds the partition map for the kind of partition table the image was built
//! for. There is no detection: the table type is a fixed property of the image.

use vstd::prelude::*;
use vstd::string::*;

use crate::error::PartitionError;
use crate::map::{keys_of, stands_at, Key, OrderedMap};
use crate::partition::device::RootDevice;
use crate::path::{file_name, file_name_of};
use crate::text::{digits_start, parse_u32, parse_u32_of, slice, to_chars, trailing_digits};

verus! {

/// Typed partition identifier.
///
/// Used as the key in `PartitionLayout.partitions`. Call `as_str()` to get
/// the canonical string form for bootloader env writes, ODS JSON, and symlink names.
#[derive(Debug, Clone, Copy, PartialEq, Eq, Hash, Structural)]
pub enum PartitionName {
    Boot,
    RootA,
    RootB,
    RootCurrent,
    Factory,
    Cert,
    Etc,
    Data,
    /// The extended container of a DOS partition table.
    Extended,
}

/// The kind of partition table.
#[derive(Debug, Clone, Copy, PartialEq, Eq, Structural)]
pub enum PartitionTable {
    Gpt,
    Dos,
}

impl PartitionName {
    pub open spec fn text(self) -> Seq<char> {
        match self {
            PartitionName::Boot => "boot"@,
            PartitionName::RootA => "rootA"@,
            PartitionName::RootB => "rootB"@,
            PartitionName::RootCurrent => "rootCurrent"@,
            PartitionName::Factory => "factory"@,
            PartitionName::Cert => "cert"@,
            PartitionName::Etc => "etc"@,
            PartitionName::Data => "data"@,
            PartitionName::Extended => "extended"@,
        }
    }

    /// The canonical string form of this partition name.
    ///
    /// Used for symlink names, ODS JSON keys, and bootloader env keys.
    pub fn as_str(self) -> (s: &'static str)
        ensures
            s@ == self.text(),
    {
        match self {
            PartitionName::Boot => "boot",
            PartitionName::RootA => "rootA",
            PartitionName::RootB => "rootB",
            PartitionName::RootCurrent => "rootCurrent",
            PartitionName::Factory => "factory",
            PartitionName::Cert => "cert",
            PartitionName::Etc => "etc",
            PartitionName::Data => "data",
            PartitionName::Extended => "extended",
        }
    }

    pub fn to_string(&self) -> (s: String)
        ensures
            s@ == self.text(),
    {
        String::from_str(self.as_str())
    }
}

impl Key for PartitionName {
    type Model = PartitionName;

    open spec fn model(&self) -> PartitionName {
        *self
    }

    fn matches(&self, other: &Self) -> (r: bool) {
        *self == *other
    }

    fn duplicate(&self) -> (r: Self) {
        *self
    }
}

/// Different partitions have different names.
pub proof fn law_names_differ(a: PartitionName, b: PartitionName)
    ensures
        a.text() == b.text() ==> a == b,
{
    reveal_strlit("boot");
    reveal_strlit("rootA");
    reveal_strlit("rootB");
    reveal_strlit("rootCurrent");
    reveal_strlit("factory");
    reveal_strlit("cert");
    reveal_strlit("etc");
    reveal_strlit("data");
    reveal_strlit("extended");
    if a != b && a.text() == b.text() {
        assert(a.text().len() == b.text().len());
        assert(a.text()[0] == b.text()[0]);
        assert(a.text()[3] == b.text()[3] || a.text().len() == 3);
        if a.text().len() == 5 {
            assert(a.text()[4] == b.text()[4]);
        }
    }
}

/// Partition layout for a block device
#[derive(Debug, Clone)]
pub struct PartitionLayout {
    /// Map of partition name to device path
    pub partitions: OrderedMap<PartitionName, String>,
    /// The root device
    pub device: RootDevice,
}

/// A map to texts, with the texts by view.
pub open spec fn text_values<K>(m: Map<K, String>) -> Map<K, Seq<char>> {
    m.map_values(|s: String| s@)
}

/// A layout by view.
pub struct LayoutView {
    pub partitions: Map<PartitionName, Seq<char>>,
    pub device: RootDevice<Seq<char>>,
}

impl View for PartitionLayout {
    type V = LayoutView;

    open spec fn view(&self) -> LayoutView {
        LayoutView { partitions: text_values(self.partitions@), device: self.device@ }
    }
}

/// The number of a partition on a disk whose current root is partition `root`.
pub open spec fn number_of(table: PartitionTable, name: PartitionName, root: nat) -> Option<nat> {
    match name {
        PartitionName::Boot => Some(1),
        PartitionName::RootA => Some(2),
        PartitionName::RootB => Some(3),
        PartitionName::RootCurrent => Some(root),
        PartitionName::Extended => match table {
            PartitionTable::Gpt => None,
            PartitionTable::Dos => Some(4),
        },
        PartitionName::Factory => match table {
            PartitionTable::Gpt => Some(4),
            PartitionTable::Dos => Some(5),
        },
        PartitionName::Cert => match table {
            PartitionTable::Gpt => Some(5),
            PartitionTable::Dos => Some(6),
        },
        PartitionName::Etc => match table {
            PartitionTable::Gpt => Some(6),
            PartitionTable::Dos => Some(7),
        },
        PartitionName::Data => match table {
            PartitionTable::Gpt => Some(7),
            PartitionTable::Dos => Some(8),
        },
    }
}

/// The partition number at the end of a device path.
pub open spec fn suffix_of(path: Seq<char>) -> Option<nat> {
    match file_name_of(path) {
        Some(name) => match parse_u32_of(trailing_digits(name)) {
            Ok(n) => Some(n),
            Err(_) => None,
        },
        None => None,
    }
}

/// The device paths of all partitions of a disk.
pub open spec fn map_for(device: RootDevice<Seq<char>>, table: PartitionTable, root: nat) -> Map<
    PartitionName,
    Seq<char>,
> {
    Map::new(
        |name: PartitionName| number_of(table, name, root) is Some,
        |name: PartitionName| device.path_of(number_of(table, name, root)->0),
    )
}

/// The partition map, which exists where the root partition is number 2 or 3.
pub open spec fn built_map(device: RootDevice<Seq<char>>, table: PartitionTable) -> Result<
    Map<PartitionName, Seq<char>>,
    PartitionError<Seq<char>>,
> {
    match suffix_of(device.root_partition) {
        Some(n) => if n == 2 || n == 3 {
            Ok(map_for(device, table, n))
        } else {
            Err(PartitionError::UnknownRootPartition { path: device.root_partition })
        },
        None => Err(PartitionError::UnknownRootPartition { path: device.root_partition }),
    }
}

/// The partitions of a disk in the order in which they are listed.
pub open spec fn names_in_order(table: PartitionTable) -> Seq<PartitionName> {
    let first = seq![PartitionName::Boot, PartitionName::RootA, PartitionName::RootB, PartitionName::RootCurrent];
    let last = seq![PartitionName::Factory, PartitionName::Cert, PartitionName::Etc, PartitionName::Data];
    match table {
        PartitionTable::Gpt => first + last,
        PartitionTable::Dos => first.push(PartitionName::Extended) + last,
    }
}

/// The partitions of a disk with their devices, in order.
pub open spec fn devices_for(device: RootDevice<Seq<char>>, table: PartitionTable) -> Seq<(PartitionName, Seq<char>)> {
    let root = suffix_of(device.root_partition)->0;
    names_in_order(table).map_values(
        |name: PartitionName| (name, device.path_of(number_of(table, name, root)->0)),
    )
}

/// The entries of a map from partitions to devices, in order.
pub open spec fn devices_in(m: OrderedMap<PartitionName, String>) -> Seq<(PartitionName, Seq<char>)> {
    m.entries().map_values(|e: (PartitionName, String)| (e.0, e.1@))
}

/// The partitions of a layout with their devices, in order.
pub open spec fn devices_of(layout: PartitionLayout) -> Seq<(PartitionName, Seq<char>)> {
    devices_in(layout.partitions)
}

/// Parse the trailing numeric partition suffix from a device path.
///
/// Examples: `sda2` → Some(2), `mmcblk0p3` → Some(3), `nvme0n1p12` → Some(12).
/// Returns None if the path has no file name or no trailing digit suffix.
///
/// Uses the *trailing* digit run, not the first digit found, so that devices
/// like `mmcblk0p2` (which contain digits in the base name) are handled correctly.
pub fn partition_suffix(path: &str) -> (r: Option<u32>)
    ensures
        match suffix_of(path@) {
            Some(n) => n <= u32::MAX && r == Some(n as u32),
            None => r is None,
        },
{
    match file_name(path) {
        Some(name) => {
            let v = to_chars(name.as_str());
            let start = digits_start(&v);
            let digits = slice(&v, start, v.len());
            assert(v@.subrange(start as int, v@.len() as int) =~= trailing_digits(v@));
            match parse_u32(digits.as_str()) {
                Ok(n) => Some(n),
                Err(_) => None,
            }
        },
        None => None,
    }
}

fn put(map: &mut OrderedMap<PartitionName, String>, name: PartitionName, device: &RootDevice, number: u32)
    requires
        forall|i: int| 0 <= i < devices_in(*old(map)).len() ==> #[trigger] devices_in(*old(map))[i].0 != name,
    ensures
        text_values(final(map)@) == text_values(old(map)@).insert(name, device@.path_of(number as nat)),
        devices_in(*final(map)) == devices_in(*old(map)).push((name, device@.path_of(number as nat))),
{
    proof {
        let keys = keys_of(map.entries());
        assert forall|i: int| !stands_at(keys, name, i) by {
            if 0 <= i < keys.len() {
                assert(devices_in(*map)[i].0 == keys[i]);
            }
        }
    }
    map.insert(name, device.partition_path(number));
    assert(text_values(map@) =~= text_values(old(map)@).insert(name, device@.path_of(number as nat)));
    assert(devices_in(*map) =~= devices_in(*old(map)).push((name, device@.path_of(number as nat))));
}

/// Build the partition map for the given device.
pub fn build_partition_map(device: &RootDevice, table: PartitionTable) -> (r: Result<
    OrderedMap<PartitionName, String>,
    PartitionError,
>)
    ensures
        match r {
            Ok(m) => built_map(device@, table) == Ok::<
                Map<PartitionName, Seq<char>>,
                PartitionError<Seq<char>>,
            >(text_values(m@)) && devices_in(m) == devices_for(device@, table),
            Err(e) => built_map(device@, table) == Err::<
                Map<PartitionName, Seq<char>>,
                PartitionError<Seq<char>>,
            >(e@),
        },
{
    let mut partitions: OrderedMap<PartitionName, String> = OrderedMap::new();
    assert(text_values(partitions@) =~= Map::<PartitionName, Seq<char>>::empty());
    put(&mut partitions, PartitionName::Boot, device, 1);
    put(&mut partitions, PartitionName::RootA, device, 2);
    put(&mut partitions, PartitionName::RootB, device, 3);

    let root: u32 = match partition_suffix(device.root_partition.as_str()) {
        Some(2) => 2,
        Some(3) => 3,
        _ => {
            return Err(
                PartitionError::UnknownRootPartition { path: device.root_partition.clone() },
            );
        },
    };
    put(&mut partitions, PartitionName::RootCurrent, device, root);

    match table {
        PartitionTable::Gpt => {
            put(&mut partitions, PartitionName::Factory, device, 4);
            put(&mut partitions, PartitionName::Cert, device, 5);
            put(&mut partitions, PartitionName::Etc, device, 6);
            put(&mut partitions, PartitionName::Data, device, 7);
        },
        PartitionTable::Dos => {
            put(&mut partitions, PartitionName::Extended, device, 4);
            put(&mut partitions, PartitionName::Factory, device, 5);
            put(&mut partitions, PartitionName::Cert, device, 6);
            put(&mut partitions, PartitionName::Etc, device, 7);
            put(&mut partitions, PartitionName::Data, device, 8);
        },
    }
    assert(text_values(partitions@) =~= map_for(device@, table, root as nat));
    assert(devices_in(partitions) =~= devices_for(device@, table));
    Ok(partitions)
}

impl LayoutView {
    /// The device path of a partition, if the layout has it.
    pub open spec fn at(self, name: PartitionName) -> Option<Seq<char>> {
        if self.partitions.dom().contains(name) {
            Some(self.partitions[name])
        } else {
            None
        }
    }

    /// The current root is rootA (partition 2).
    pub open spec fn on_root_a(self) -> bool {
        suffix_of(self.device.root_partition) == Some(2nat)
    }

    /// The device path of the current root partition.
    pub open spec fn current_root(self) -> Seq<char> {
        let (name, number) = if self.on_root_a() {
            (PartitionName::RootA, 2nat)
        } else {
            (PartitionName::RootB, 3nat)
        };
        match self.at(name) {
            Some(path) => path,
            None => self.device.path_of(number),
        }
    }
}

impl PartitionLayout {
    /// Builds the partition map for the given root device.
    pub fn new(device: RootDevice, table: PartitionTable) -> (r: Result<Self, PartitionError>)
        ensures
            match r {
                Ok(layout) => layout.device == device && built_map(device@, table) == Ok::<
                    Map<PartitionName, Seq<char>>,
                    PartitionError<Seq<char>>,
                >(layout@.partitions) && devices_of(layout) == devices_for(device@, table),
                Err(e) => built_map(device@, table) == Err::<
                    Map<PartitionName, Seq<char>>,
                    PartitionError<Seq<char>>,
                >(e@),
            },
    {
        match build_partition_map(&device, table) {
            Ok(partitions) => Ok(PartitionLayout { partitions, device }),
            Err(e) => Err(e),
        }
    }

    /// Get the device path for a named partition
    pub fn get(&self, name: PartitionName) -> (r: Option<&String>)
        ensures
            match r {
                Some(path) => self@.at(name) == Some(path@),
                None => self@.at(name) is None,
            },
    {
        self.partitions.get(&name)
    }

    /// Check if current root is rootA (partition 2)
    fn is_root_a(&self) -> (r: bool)
        ensures
            r == self@.on_root_a(),
    {
        match partition_suffix(self.device.root_partition.as_str()) {
            Some(n) => n == 2,
            None => false,
        }
    }

    /// Get the current root partition path (rootA or rootB based on boot).
    ///
    /// Falls back to reconstructing the path from the device if the map entry
    /// is absent (indicates incomplete initialisation — should not occur in normal boot).
    pub fn root_current(&self) -> (r: String)
        ensures
            r@ == self@.current_root(),
    {
        if self.is_root_a() {
            match self.get(PartitionName::RootA) {
                Some(path) => path.clone(),
                None => self.device.partition_path(2),
            }
        } else {
            match self.get(PartitionName::RootB) {
                Some(path) => path.clone(),
                None => self.device.partition_path(3),
            }
        }
    }
}

/// In a built layout the current root is one of the two root partitions, and
/// `root_current` agrees with the `rootCurrent` entry of the map.
pub proof fn law_root_current(layout: LayoutView, table: PartitionTable)
    requires
        built_map(layout.device, table) == Ok::<
            Map<PartitionName, Seq<char>>,
            PartitionError<Seq<char>>,
        >(layout.partitions),
    ensures
        layout.partitions.dom().contains(PartitionName::RootCurrent),
        layout.current_root() == layout.partitions[PartitionName::RootCurrent],
        layout.current_root() == layout.partitions[PartitionName::RootA] || layout.current_root()
            == layout.partitions[PartitionName::RootB],
{
}

/// The partitions of one table, rootCurrent aside, have different numbers.
pub proof fn law_numbers_differ(table: PartitionTable, a: PartitionName, b: PartitionName, root: nat)
    requires
        a != PartitionName::RootCurrent,
        b != PartitionName::RootCurrent,
        number_of(table, a, root) is Some,
    ensures
        number_of(table, a, root) == number_of(table, b, root) ==> a == b,
{
}

/// The number of a partition is read back from its device path, where the part of
/// the path before the number ends in a character that is neither a digit nor a slash.
pub proof fn law_suffix_of_path(device: RootDevice<Seq<char>>, n: nat)
    requires
        n <= u32::MAX,
        (device.base + device.partition_sep).len() > 0,
        !crate::text::is_digit((device.base + device.partition_sep).last()),
        (device.base + device.partition_sep).last() != '/',
    ensures
        suffix_of(device.path_of(n)) == Some(n),
{
    let stem = device.base + device.partition_sep;
    let digits = crate::text::dec_of(n);
    let path = device.path_of(n);
    assert(path =~= stem + digits);
    crate::text::lemma_dec(n);
    crate::text::lemma_parse_dec(n);
    let end = path.len() as int;
    assert(path[end - 1] == digits.last());
    assert(crate::text::is_digit(digits.last()));
    crate::text::lemma_run_back(path.take(end), crate::text::other_than('/'));
    assert(path.take(end) =~= path);
    let start = crate::path::piece_start(path, end);
    // The last piece reaches back over the digits into the stem.
    assert(start < stem.len()) by {
        if start >= stem.len() {
            let k = start - 1;
            assert(path[k] == '/');
            if k >= stem.len() {
                assert(path[k] == digits[k - stem.len()]);
                assert(crate::text::is_digit(digits[k - stem.len()]));
            } else {
                assert(path[k] == stem.last());
            }
        }
    }
    let name = path.subrange(start, end);
    reveal_strlit(".");
    reveal_strlit("..");
    assert(name.last() == digits.last());
    assert(file_name_of(path) == Some(name));
    let m = digits.len();
    assert(name.skip(name.len() - m) =~= digits);
    assert forall|j: int| name.len() - m <= j < name.len() implies crate::text::is_digit(#[trigger] name[j]) by {
        assert(name[j] == digits[j - (name.len() - m)]);
    }
    assert(name[name.len() - m - 1] == stem.last());
    crate::text::lemma_run_back_is(name, crate::text::digit(), m);
}

} // verus!
