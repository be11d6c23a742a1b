//! Which device is which partition

use vstd::prelude::*;

use crate::laws::links::in_a_row;
use crate::laws::overlay::only_if;
use crate::laws::reset::{lemma_and_asks, lemma_once_more};
use crate::laws::{
    achieves, answered, answered_at, asked_in, asks_only, law_joined, lemma_achieves_further, lemma_achieves_nothing,
    lemma_asks_further, lemma_asks_next, lemma_asks_nothing, name_of, under,
};
use crate::partition::device::{
    device_at, elapsed_of, first_value, has_p_suffix, param_of, waited, waiting, PartitionErrorView, RootDevice,
    RootDeviceView,
};
use crate::partition::layout::{built_map, suffix_of, PartitionName};
use crate::partition::symlinks::{all_linked, link_cleared, link_dir_made, linked, partitions_linked};
use crate::partition::PartitionTable;
use crate::path::{component_end, file_name_of, joined, parent_of, piece_start};
use crate::system::{millis_of, ReplyView, RequestView, Stop, Transcript};
use crate::text::{
    all_digits, contains_text, dec_of, digit, is_digit, is_word, join_of, lemma_run_back_is, lemma_run_len_is,
    lemma_words_of_join, occurs_at, only, other_than, starts_with_text,
};

verus! {

/// The path of the partition with this number.
pub open spec fn numbered(device: RootDeviceView, number: Seq<char>) -> Seq<char> {
    device.base + device.partition_sep + number
}

/// The number of a partition on the disk, as it stands at the end of its device path.
pub open spec fn place_on(table: PartitionTable, name: PartitionName) -> Seq<char> {
    match (table, name) {
        (_, PartitionName::Boot) => "1"@,
        (_, PartitionName::RootA) => "2"@,
        (_, PartitionName::RootB) => "3"@,
        (PartitionTable::Gpt, PartitionName::Factory) => "4"@,
        (PartitionTable::Gpt, PartitionName::Cert) => "5"@,
        (PartitionTable::Gpt, PartitionName::Etc) => "6"@,
        (PartitionTable::Gpt, PartitionName::Data) => "7"@,
        (PartitionTable::Dos, PartitionName::Extended) => "4"@,
        (PartitionTable::Dos, PartitionName::Factory) => "5"@,
        (PartitionTable::Dos, PartitionName::Cert) => "6"@,
        (PartitionTable::Dos, PartitionName::Etc) => "7"@,
        (PartitionTable::Dos, PartitionName::Data) => "8"@,
        _ => ""@,
    }
}

proof fn lemma_digits()
    ensures
        dec_of(1) == "1"@,
        dec_of(2) == "2"@,
        dec_of(3) == "3"@,
        dec_of(4) == "4"@,
        dec_of(5) == "5"@,
        dec_of(6) == "6"@,
        dec_of(7) == "7"@,
        dec_of(8) == "8"@,
{
    reveal_strlit("1");
    reveal_strlit("2");
    reveal_strlit("3");
    reveal_strlit("4");
    reveal_strlit("5");
    reveal_strlit("6");
    reveal_strlit("7");
    reveal_strlit("8");
    assert(dec_of(1) =~= "1"@);
    assert(dec_of(2) =~= "2"@);
    assert(dec_of(3) =~= "3"@);
    assert(dec_of(4) =~= "4"@);
    assert(dec_of(5) =~= "5"@);
    assert(dec_of(6) =~= "6"@);
    assert(dec_of(7) =~= "7"@);
    assert(dec_of(8) =~= "8"@);
}

/// Each partition has its fixed place on the disk; the current root is that of the two roots
/// which the device was booted from, and a device booted from another partition has no layout.
/// A GPT has no extended partition.
pub proof fn law_layout(device: RootDeviceView, table: PartitionTable)
    ensures
        built_map(device, table) matches Ok(map) ==> {
            &&& forall|name: PartitionName|
                name != PartitionName::RootCurrent && (name == PartitionName::Extended ==> table == PartitionTable::Dos)
                    ==> #[trigger] map.dom().contains(name) && map[name] == numbered(device, place_on(table, name))
            &&& map.dom().contains(PartitionName::RootCurrent)
            &&& map.dom().contains(PartitionName::Extended) <==> table == PartitionTable::Dos
            &&& suffix_of(device.root_partition) == Some(2nat) && map[PartitionName::RootCurrent]
                == map[PartitionName::RootA] || suffix_of(device.root_partition) == Some(3nat)
                && map[PartitionName::RootCurrent] == map[PartitionName::RootB]
        },
        built_map(device, table) is Ok <==> suffix_of(device.root_partition) == Some(2nat) || suffix_of(
            device.root_partition,
        ) == Some(3nat),
{
    lemma_digits();
}

/// A file name behind a slash.
pub open spec fn file_name(name: Seq<char>) -> bool {
    name.len() > 0 && !name.contains('/') && name != "."@ && name != ".."@
}

proof fn lemma_last_piece(dir: Seq<char>, name: Seq<char>)
    requires
        file_name(name),
    ensures
        component_end(dir.push('/') + name, dir.len() + 1 + name.len() as int) == dir.len() + 1 + name.len(),
        piece_start(dir.push('/') + name, dir.len() + 1 + name.len() as int) == dir.len() + 1,
{
    let path = dir.push('/') + name;
    let end = path.len() as int;
    assert(path.take(end) =~= path);
    assert forall|i: int| path.len() - name.len() <= i < path.len() implies other_than('/')(#[trigger] path[i]) by {
        assert(path[i] == name[i - dir.len() - 1]);
    }
    lemma_run_back_is(path, other_than('/'), name.len());
    assert(path[end - 1] == name.last());
    assert(path.subrange(dir.len() as int + 1, end) =~= name);
}

/// The file name of a path is what stands behind its last slash.
pub proof fn law_file_name(dir: Seq<char>, name: Seq<char>)
    requires
        file_name(name),
    ensures
        file_name_of(dir.push('/') + name) == Some(name),
{
    let path = dir.push('/') + name;
    lemma_last_piece(dir, name);
    assert(path.subrange(dir.len() as int + 1, path.len() as int) =~= name);
}

/// The parent of a path is what stands before its last slash.
pub proof fn law_parent(above: Seq<char>, last: Seq<char>, name: Seq<char>)
    requires
        file_name(name),
        file_name(last),
    ensures
        parent_of(above.push('/') + last.push('/') + name) == Some(above.push('/') + last),
{
    let dir = above.push('/') + last;
    let path = above.push('/') + last.push('/') + name;
    assert(path =~= dir.push('/') + name);
    lemma_last_piece(dir, name);
    assert(path[dir.len() as int] == '/');
    lemma_last_piece(above, last);
    assert(component_end(path, dir.len() as int + 1) == component_end(path, dir.len() as int));
    lemma_within(dir, path, dir.len() as int);
    assert(path.take(dir.len() as int) =~= dir);
}

/// Where a component ends depends only on what stands before.
proof fn lemma_within(dir: Seq<char>, path: Seq<char>, end: int)
    requires
        0 <= end <= dir.len() <= path.len(),
        forall|i: int| 0 <= i < dir.len() ==> path[i] == dir[i],
    ensures
        component_end(path, end) == component_end(dir, end),
        piece_start(path, end) == piece_start(dir, end),
    decreases end,
{
    assert(path.take(end) =~= dir.take(end));
    if end > 0 {
        if path[end - 1] == '/' {
            lemma_within(dir, path, end - 1);
        } else {
            let start = piece_start(path, end);
            crate::text::lemma_run_back(path.take(end), other_than('/'));
            if 0 < start < end {
                assert(path.subrange(start, end) =~= dir.subrange(start, end));
                lemma_within(dir, path, start);
            }
        }
    }
}

/// The disk of a partition: its path begins with that of the disk, then comes the separator, a
/// `p` where the name of the disk itself ends in a digit, and the number.
pub proof fn law_disk_of(dir: Seq<char>, stem: Seq<char>, number: Seq<char>)
    requires
        stem.len() > 0,
        !stem.contains('/'),
        number.len() > 0,
        all_digits(number),
    ensures
        ({
            let plain = dir.push('/') + (stem + number);
            !is_digit(stem.last()) && !has_p_suffix(stem + number) ==> device_at(plain) == Ok::<
                RootDeviceView,
                PartitionErrorView,
            >(RootDevice { base: "/dev/"@ + stem, partition_sep: Seq::empty(), root_partition: plain })
        }),
        ({
            let parted = dir.push('/') + (stem.push('p') + number);
            starts_with_text(stem, "mmcblk"@) || contains_text(stem, "nvme"@) ==> device_at(parted) == Ok::<
                RootDeviceView,
                PartitionErrorView,
            >(RootDevice { base: "/dev/"@ + stem, partition_sep: "p"@, root_partition: parted })
        }),
{
    reveal_strlit("/dev");
    reveal_strlit("/dev/");
    reveal_strlit("p");
    reveal_strlit(".");
    reveal_strlit("..");
    law_joined("/dev"@, stem);
    assert(stem[0] != '/');
    assert(under("/dev"@, stem) =~= "/dev/"@ + stem);
    let one = stem + number;
    assert(is_digit(number.last()));
    assert(one.last() == number.last());
    assert forall|i: int| 0 <= i < one.len() implies one[i] != '/' by {
        if i < stem.len() {
            assert(one[i] == stem[i]);
        } else {
            assert(one[i] == number[i - stem.len()]);
            assert(is_digit(number[i - stem.len()]));
        }
    }
    assert(one != "."@ && one != ".."@) by {
        assert("."@.last() == '.' && ".."@.last() == '.');
    }
    law_file_name(dir, one);
    if !is_digit(stem.last()) && !has_p_suffix(one) {
        assert forall|i: int| one.len() - number.len() <= i < one.len() implies digit()(#[trigger] one[i]) by {
            assert(one[i] == number[i - stem.len()]);
            assert(is_digit(number[i - stem.len()]));
        }
        assert(one[one.len() - number.len() - 1] == stem.last());
        lemma_run_back_is(one, digit(), number.len());
        assert(one.take(stem.len() as int) =~= stem);
    }
    let two = stem.push('p') + number;
    assert(two.last() == number.last());
    assert forall|i: int| 0 <= i < two.len() implies two[i] != '/' by {
        if i < stem.len() {
            assert(two[i] == stem[i]);
        } else if i > stem.len() {
            assert(two[i] == number[i - stem.len() - 1]);
            assert(is_digit(number[i - stem.len() - 1]));
        }
    }
    assert(two != "."@ && two != ".."@) by {
        assert("."@.last() == '.' && ".."@.last() == '.');
    }
    law_file_name(dir, two);
    if starts_with_text(stem, "mmcblk"@) || contains_text(stem, "nvme"@) {
        assert forall|i: int| two.len() - number.len() <= i < two.len() implies other_than('p')(#[trigger] two[i]) by {
            assert(two[i] == number[i - stem.len() - 1]);
            assert(is_digit(number[i - stem.len() - 1]));
        }
        assert(two[two.len() - number.len() - 1] == 'p');
        lemma_run_back_is(two, other_than('p'), number.len());
        assert(two.skip(stem.len() as int + 1) =~= number);
        assert(two.take(stem.len() as int) =~= stem);
        if starts_with_text(stem, "mmcblk"@) {
            let n = "mmcblk"@.len() as int;
            assert(two.subrange(0, n) =~= stem.subrange(0, n));
            assert(starts_with_text(two, "mmcblk"@));
        } else {
            let at = choose|at: int| occurs_at(stem, "nvme"@, at);
            let n = "nvme"@.len() as int;
            assert(two.subrange(at, at + n) =~= stem.subrange(at, at + n));
            assert(occurs_at(two, "nvme"@, at));
        }
    }
}

/// The value of a parameter of the kernel is what stands behind its name and the first equals
/// sign, in the first word that begins so; quotes around it do not belong to it.
pub proof fn law_parameter(words: Seq<Seq<char>>, i: int, key: Seq<char>, value: Seq<char>)
    requires
        forall|k: int| 0 <= k < words.len() ==> is_word(#[trigger] words[k]),
        0 <= i < words.len(),
        words[i] == key.push('=') + value,
        forall|k: int| 0 <= k < i ==> !starts_with_text(#[trigger] words[k], key.push('=')),
        value.len() > 0 ==> value[0] != '"' && value.last() != '"',
    ensures
        param_of(join_of(words, " "@), key) == Some(value),
{
    lemma_words_of_join(words);
    reveal_strlit("=");
    assert(key + "="@ =~= key.push('='));
    lemma_first_value(words, i, key, value, 0);
}

proof fn lemma_first_value(words: Seq<Seq<char>>, i: int, key: Seq<char>, value: Seq<char>, k: int)
    requires
        0 <= k <= i < words.len(),
        words[i] == key.push('=') + value,
        forall|j: int| 0 <= j < i ==> !starts_with_text(#[trigger] words[j], key.push('=')),
        value.len() > 0 ==> value[0] != '"' && value.last() != '"',
        key + "="@ == key.push('='),
    ensures
        first_value(words, key, k) == Some(value),
    decreases i - k,
{
    if k < i {
        assert(!starts_with_text(words[k], key.push('=')));
        lemma_first_value(words, i, key, value, k + 1);
    } else {
        let word = words[i];
        let n = key.push('=').len() as int;
        assert(word.subrange(0, n) =~= key.push('='));
        assert(starts_with_text(word, key.push('=')));
        assert(word.skip(n) =~= value);
        lemma_run_len_is(value, only('"'), 0);
        assert(value.skip(0) =~= value);
        lemma_run_back_is(value, only('"'), 0);
        assert(value.take(value.len() as int) =~= value);
    }
}

/// What waits for a device asks for nothing but the device and the clock, a tenth of a second
/// apart.
pub open spec fn waits_for(device: Seq<char>) -> spec_fn(RequestView) -> bool {
    |q: RequestView| q == RequestView::Exists(device) || q == RequestView::Clock || q == RequestView::Sleep(100)
}

/// A device is waited for until it is there; it is given up only after thirty seconds.
pub proof fn law_wait(t: Transcript, device: Seq<char>, start: u64)
    ensures
        ({
            let (end, r) = waiting(t, device, start);
            &&& asks_only(t, end, waits_for(device))
            &&& r is Ok ==> answered(t, end, RequestView::Exists(device), ReplyView::Flag(true))
            &&& r matches Err(Stop::Failed(_)) ==> exists|reply: ReplyView|
                #[trigger] answered(t, end, RequestView::Clock, reply) && (reply matches ReplyView::Millis(now) ==> now - start
                    > 30000)
        }),
    decreases t.rest.len(),
{
    let (end, r) = waiting(t, device, start);
    let p = waits_for(device);
    let t1 = t.ask(RequestView::Exists(device));
    let t2 = t1.ask(RequestView::Clock);
    let t3 = t2.ask(RequestView::Sleep(100));
    lemma_asks_nothing(t, p);
    lemma_asks_next(t, t, RequestView::Exists(device), p);
    lemma_asks_next(t, t1, RequestView::Clock, p);
    lemma_asks_next(t, t2, RequestView::Sleep(100), p);
    if t.next() is Some {
        if t.next()->0 == ReplyView::Flag(true) {
            assert(answered_at(t, end, 0, RequestView::Exists(device), ReplyView::Flag(true)));
        } else if t1.next() is Some {
            assert(t1.rest[0] == t.rest[1]);
            if elapsed_of(start, millis_of(t.rest[1])) > 30000 {
                assert(end == t2);
                assert(asked_in(t, t2)[1] == RequestView::Clock);
                assert(answered_at(t, end, 1, RequestView::Clock, t.rest[1]));
                assert(answered(t, end, RequestView::Clock, t.rest[1]));
            } else if t2.next() is Some {
                law_wait(t3, device, start);
                lemma_asks_further(t, t3, end, p);
                crate::laws::lemma_follows_ask(t, RequestView::Exists(device));
                crate::laws::lemma_follows_ask(t1, RequestView::Clock);
                crate::laws::lemma_follows_ask(t2, RequestView::Sleep(100));
                crate::laws::lemma_follows_further(t, t1, t2);
                crate::laws::lemma_follows_further(t, t2, t3);
                lemma_wait_follows(t3, device, start);
                crate::laws::lemma_answered_further(
                    t,
                    t3,
                    end,
                    RequestView::Exists(device),
                    ReplyView::Flag(true),
                );
                if r matches Err(Stop::Failed(_)) {
                    let reply = choose|reply: ReplyView|
                        #[trigger] answered(t3, end, RequestView::Clock, reply) && (reply matches ReplyView::Millis(now)
                            ==> now - start > 30000);
                    crate::laws::lemma_answered_further(t, t3, end, RequestView::Clock, reply);
                }
            }
        }
    }
}

proof fn lemma_wait_follows(t: Transcript, device: Seq<char>, start: u64)
    ensures
        crate::laws::follows(t, waiting(t, device, start).0),
    decreases t.rest.len(),
{
    let t1 = t.ask(RequestView::Exists(device));
    let t2 = t1.ask(RequestView::Clock);
    let t3 = t2.ask(RequestView::Sleep(100));
    crate::laws::lemma_follows_ask(t, RequestView::Exists(device));
    crate::laws::lemma_follows_ask(t1, RequestView::Clock);
    crate::laws::lemma_follows_ask(t2, RequestView::Sleep(100));
    crate::laws::lemma_follows_further(t, t1, t2);
    crate::laws::lemma_follows_further(t, t2, t3);
    if t.next() is Some && t1.next() is Some && t2.next() is Some {
        lemma_wait_follows(t3, device, start);
        crate::laws::lemma_follows_further(t, t3, waiting(t3, device, start).0);
    }
}

/// `list` clears the way of a link where something is there, and makes it.
pub open spec fn links_to(list: Seq<RequestView>, link: Seq<char>, target: Seq<char>) -> bool {
    exists|removed: bool|
        list == #[trigger] only_if(removed, RequestView::RemoveFile(link)) + only_if(
            true,
            RequestView::Symlink { target, link },
        )
}

proof fn lemma_linked(t: Transcript, target: Seq<char>, link: Seq<char>)
    ensures
        linked(t, target, link).1 is Ok ==> exists|list: Seq<RequestView>|
            #[trigger] achieves(t, linked(t, target, link).0, list) && links_to(list, link, target),
{
    let (end, r) = linked(t, target, link);
    let none = Seq::<RequestView>::empty();
    let remove = RequestView::RemoveFile(link);
    let make = RequestView::Symlink { target, link };
    lemma_achieves_nothing(t);
    if r is Ok {
        let (t1, cleared) = link_cleared(t, link);
        let a = t.ask(RequestView::IsSymlink(link));
        let b = a.ask(RequestView::Exists(link));
        let c = b.ask(RequestView::IsDir(link));
        lemma_and_asks(t, t, RequestView::IsSymlink(link), none);
        assert(none.push(remove) =~= only_if(true, remove));
        let removed = if t.rest[0] == ReplyView::Flag(true) {
            lemma_once_more(t, a, remove, none);
            true
        } else {
            lemma_and_asks(t, a, RequestView::Exists(link), none);
            if a.rest[0] != ReplyView::Flag(true) {
                false
            } else {
                lemma_and_asks(t, b, RequestView::IsDir(link), none);
                lemma_once_more(t, c, remove, none);
                true
            }
        };
        let first = only_if(removed, remove);
        assert(achieves(t, t1, first));
        lemma_once_more(t, t1, make, first);
        assert(first.push(make) =~= first + only_if(true, make));
        assert(links_to(first + only_if(true, make), link, target));
    }
}

/// The link of a partition.
pub open spec fn device_link(name: Seq<char>) -> Seq<char> {
    "/dev/omnect/"@ + name
}

proof fn lemma_device_link(name: PartitionName)
    ensures
        joined("/dev/omnect"@, name.text()) == device_link(name_of(name)),
        joined("/dev/omnect"@, "rootblk"@) == device_link("rootblk"@),
{
    reveal_strlit("/dev/omnect");
    reveal_strlit("/dev/omnect/");
    reveal_strlit("rootblk");
    reveal_strlit("boot");
    reveal_strlit("rootA");
    reveal_strlit("rootB");
    reveal_strlit("rootCurrent");
    reveal_strlit("factory");
    reveal_strlit("cert");
    reveal_strlit("etc");
    reveal_strlit("data");
    reveal_strlit("extended");
    law_joined("/dev/omnect"@, name.text());
    law_joined("/dev/omnect"@, "rootblk"@);
    assert(under("/dev/omnect"@, name.text()) =~= "/dev/omnect/"@ + name_of(name));
    assert(under("/dev/omnect"@, "rootblk"@) =~= "/dev/omnect/"@ + "rootblk"@);
}

/// `list` makes a link for each of the devices, in their order.
pub open spec fn links_devices(list: Seq<RequestView>, devices: Seq<(PartitionName, Seq<char>)>) -> bool {
    exists|parts: Seq<Seq<RequestView>>|
        parts.len() == devices.len() && list == #[trigger] in_a_row(parts) && forall|i: int|
            0 <= i < devices.len() ==> links_to(
                #[trigger] parts[i],
                device_link(name_of(devices[i].0)),
                devices[i].1,
            )
}

proof fn lemma_devices_linked(
    t0: Transcript,
    t: Transcript,
    before: Seq<RequestView>,
    devices: Seq<(PartitionName, Seq<char>)>,
    i: int,
)
    requires
        0 <= i <= devices.len(),
        achieves(t0, t, before),
        links_devices(before, devices.take(i)),
    ensures
        partitions_linked(t, devices, i).1 is Ok ==> exists|list: Seq<RequestView>|
            #[trigger] achieves(t0, partitions_linked(t, devices, i).0, list) && links_devices(list, devices),
    decreases devices.len() - i,
{
    if i >= devices.len() {
        assert(devices.take(i) =~= devices);
        assert(achieves(t0, partitions_linked(t, devices, i).0, before));
    } else {
        lemma_device_link(devices[i].0);
        let link = device_link(name_of(devices[i].0));
        let (t1, r) = linked(t, devices[i].1, link);
        lemma_linked(t, devices[i].1, link);
        if r is Ok {
            let list = choose|list: Seq<RequestView>|
                #[trigger] achieves(t, t1, list) && links_to(list, link, devices[i].1);
            lemma_achieves_further(t0, t, t1, before, list);
            let parts = choose|parts: Seq<Seq<RequestView>>|
                parts.len() == i && before == #[trigger] in_a_row(parts) && forall|k: int|
                    0 <= k < i ==> links_to(
                        #[trigger] parts[k],
                        device_link(name_of(devices.take(i)[k].0)),
                        devices.take(i)[k].1,
                    );
            let more = parts.push(list);
            assert(more.drop_last() =~= parts);
            assert(in_a_row(more) == before + list);
            assert forall|k: int| 0 <= k < i + 1 implies links_to(
                #[trigger] more[k],
                device_link(name_of(devices.take(i + 1)[k].0)),
                devices.take(i + 1)[k].1,
            ) by {
                if k < i {
                    assert(more[k] == parts[k]);
                    assert(devices.take(i)[k] == devices.take(i + 1)[k]);
                }
            }
            assert(links_devices(before + list, devices.take(i + 1)));
            lemma_devices_linked(t0, t1, before + list, devices, i + 1);
        }
    }
}

/// `list` makes /dev/omnect where it is missing, and in it the links of the disk, of each
/// partition under its name, and last of the current root.
pub open spec fn links_all(
    list: Seq<RequestView>,
    base: Seq<char>,
    devices: Seq<(PartitionName, Seq<char>)>,
    root: Seq<char>,
) -> bool {
    exists|made: bool, a: Seq<RequestView>, b: Seq<RequestView>, c: Seq<RequestView>|
        list == #[trigger] only_if(made, RequestView::CreateDir("/dev/omnect"@)) + a + b + c && #[trigger] links_to(
            a,
            device_link("rootblk"@),
            base,
        ) && #[trigger] links_devices(b, devices) && #[trigger] links_to(c, device_link("rootCurrent"@), root)
}

/// The links of the devices.
pub proof fn law_device_links(
    t: Transcript,
    base: Seq<char>,
    devices: Seq<(PartitionName, Seq<char>)>,
    root: Seq<char>,
)
    ensures
        all_linked(t, base, devices, root).1 is Ok ==> exists|list: Seq<RequestView>|
            #[trigger] achieves(t, all_linked(t, base, devices, root).0, list) && links_all(list, base, devices, root),
{
    let (end, r) = all_linked(t, base, devices, root);
    let none = Seq::<RequestView>::empty();
    lemma_achieves_nothing(t);
    lemma_device_link(PartitionName::RootCurrent);
    if r is Ok {
        let dir = "/dev/omnect"@;
        let ask = RequestView::Exists(dir);
        let (t1, r1) = link_dir_made(t);
        lemma_and_asks(t, t, ask, none);
        let made = t.rest[0] != ReplyView::Flag(true);
        let first = only_if(made, RequestView::CreateDir(dir));
        if made {
            lemma_once_more(t, t.ask(ask), RequestView::CreateDir(dir), none);
            assert(none.push(RequestView::CreateDir(dir)) =~= first);
        }
        assert(achieves(t, t1, first));
        let (t2, r2) = linked(t1, base, device_link("rootblk"@));
        lemma_linked(t1, base, device_link("rootblk"@));
        let a = choose|list: Seq<RequestView>|
            #[trigger] achieves(t1, t2, list) && links_to(list, device_link("rootblk"@), base);
        lemma_achieves_nothing(t2);
        assert(in_a_row(Seq::empty()) == none);
        assert(links_devices(none, devices.take(0)));
        lemma_devices_linked(t2, t2, none, devices, 0);
        let (t3, r3) = partitions_linked(t2, devices, 0);
        let b = choose|list: Seq<RequestView>| #[trigger] achieves(t2, t3, list) && links_devices(list, devices);
        lemma_linked(t3, root, device_link("rootCurrent"@));
        let c = choose|list: Seq<RequestView>|
            #[trigger] achieves(t3, end, list) && links_to(list, device_link("rootCurrent"@), root);
        lemma_achieves_further(t, t1, t2, first, a);
        lemma_achieves_further(t, t2, t3, first + a, b);
        lemma_achieves_further(t, t3, end, first + a + b, c);
        assert(links_all(first + a + b + c, base, devices, root));
    }
}

} // verus!
