//! What the running system finds

use vstd::prelude::*;

use crate::bootloader::session_env::{BootloaderKind, SessionEnv};
use crate::bootloader::{BootEnv, BootEnvKey, EnvRead};
use crate::error::InitOutcome;
use crate::json::pretty_of;
use crate::laws::environment::{lemma_split_at, one_line};
use crate::laws::reset::{lemma_and_asks, lemma_once_more};
use crate::laws::{achieves, law_joined, lemma_achieves_further, lemma_achieves_nothing, quiet, under};
use crate::path::joined;
use crate::runtime::omnect_device_service::{
    created, gid_looked_up, handed_over, id_from, marked, status_created, uid_looked_up, update_marked, validated,
    FilePermission,
};
use crate::runtime::status::{ods_json, OdsView};
use crate::system::{ReplyView, RequestView, Transcript};
use crate::text::{
    dec_of, digit_value, is_digit, lemma_dec, lemma_parse_dec, lines_of, parse_u32_of, scan_of, split_of, strip_cr,
    ParseFault,
};

verus! {

/// What makes a file the service's own.
pub open spec fn hand_over(path: Seq<char>, uid: u32, gid: u32, mode: u32) -> Seq<RequestView> {
    seq![RequestView::SetOwner { path, uid, gid }, RequestView::SetMode { path, mode }]
}

/// What leaves a marker file for the service.
pub open spec fn mark(path: Seq<char>, uid: u32, gid: u32, mode: u32) -> Seq<RequestView> {
    seq![RequestView::WriteText { path, text: "1"@ }] + hand_over(path, uid, gid, mode)
}

/// A file under a directory is none of the limits of the kernel log if it does not end like
/// them.
proof fn lemma_no_limit(dir: Seq<char>, name: Seq<char>, text: Seq<char>)
    requires
        name.len() > 0,
        name.last() != 't',
        name[0] != '/',
    ensures
        !quiet(RequestView::WriteText { path: under(dir, name), text }),
        joined(dir, name) == under(dir, name),
{
    law_joined(dir, name);
    reveal_strlit("/proc/sys/kernel/printk_ratelimit");
    reveal_strlit("/proc/sys/kernel/printk_ratelimit_burst");
    assert(under(dir, name).last() == name.last());
    assert("/proc/sys/kernel/printk_ratelimit"@.last() == 't');
    assert("/proc/sys/kernel/printk_ratelimit_burst"@.last() == 't');
}

proof fn lemma_handed(
    t0: Transcript,
    t: Transcript,
    list: Seq<RequestView>,
    path: Seq<char>,
    uid: u32,
    gid: u32,
    permission: FilePermission,
)
    requires
        achieves(t0, t, list),
    ensures
        handed_over(t, path, uid, gid, permission).1 is Ok ==> achieves(
            t0,
            handed_over(t, path, uid, gid, permission).0,
            list + hand_over(path, uid, gid, permission.mode()),
        ),
{
    let steps = hand_over(path, uid, gid, permission.mode());
    if handed_over(t, path, uid, gid, permission).1 is Ok {
        lemma_once_more(t0, t, steps[0], list);
        lemma_once_more(t0, t.ask(steps[0]), steps[1], list.push(steps[0]));
        assert(list.push(steps[0]).push(steps[1]) =~= list + steps);
    }
}

proof fn lemma_marked(
    t: Transcript,
    dir: Seq<char>,
    name: Seq<char>,
    uid: u32,
    gid: u32,
    permission: FilePermission,
)
    requires
        name.len() > 0,
        name.last() != 't',
        name[0] != '/',
    ensures
        marked(t, joined(dir, name), uid, gid, permission).1 is Ok ==> achieves(
            t,
            marked(t, joined(dir, name), uid, gid, permission).0,
            mark(under(dir, name), uid, gid, permission.mode()),
        ),
{
    let path = under(dir, name);
    let write = RequestView::WriteText { path, text: "1"@ };
    lemma_no_limit(dir, name, "1"@);
    lemma_achieves_nothing(t);
    if marked(t, joined(dir, name), uid, gid, permission).1 is Ok {
        let none = Seq::<RequestView>::empty();
        lemma_once_more(t, t, write, none);
        assert(none.push(write) =~= seq![write]);
        lemma_handed(t, t.ask(write), seq![write], path, uid, gid, permission);
    }
}

/// The status is written to omnect-os-initramfs.json in the directory of the service. Directory
/// and file belong to the service; the directory is open to its group, the file to it alone.
pub proof fn law_status_file(t: Transcript, status: OdsView, dir: Seq<char>, uid: u32, gid: u32)
    ensures
        status_created(t, status, dir, uid, gid).1 is Ok ==> achieves(
            t,
            status_created(t, status, dir, uid, gid).0,
            seq![RequestView::CreateDir(dir)] + hand_over(dir, uid, gid, 0o775) + seq![
                RequestView::WriteText {
                    path: under(dir, "omnect-os-initramfs.json"@),
                    text: pretty_of(ods_json(status)),
                },
            ] + hand_over(under(dir, "omnect-os-initramfs.json"@), uid, gid, 0o600),
        ),
{
    let file = under(dir, "omnect-os-initramfs.json"@);
    let text = pretty_of(ods_json(status));
    reveal_strlit("omnect-os-initramfs.json");
    lemma_no_limit(dir, "omnect-os-initramfs.json"@, text);
    lemma_achieves_nothing(t);
    if status_created(t, status, dir, uid, gid).1 is Ok {
        let none = Seq::<RequestView>::empty();
        let made = RequestView::CreateDir(dir);
        let write = RequestView::WriteText { path: file, text };
        let t1 = t.ask(made);
        lemma_once_more(t, t, made, none);
        assert(none.push(made) =~= seq![made]);
        lemma_handed(t, t1, seq![made], dir, uid, gid, FilePermission::DirStandard);
        let t2 = handed_over(t1, dir, uid, gid, FilePermission::DirStandard).0;
        let a = seq![made] + hand_over(dir, uid, gid, 0o775);
        lemma_once_more(t, t2, write, a);
        assert(a.push(write) =~= a + seq![write]);
        lemma_handed(t, t2.ask(write), a + seq![write], file, uid, gid, FilePermission::FileRestricted);
    }
}

/// The marker of an update that is to be validated, or whose validation failed.
pub open spec fn validation_mark(value: Option<Seq<char>>, dir: Seq<char>, uid: u32, gid: u32) -> Seq<RequestView> {
    if value == Some("1"@) {
        mark(under(dir, "omnect_validate_update"@), uid, gid, 0o644)
    } else if value == Some("failed"@) {
        mark(under(dir, "omnect_validate_update_failed"@), uid, gid, 0o644)
    } else {
        Seq::empty()
    }
}

/// The marker of a bootloader that was updated.
pub open spec fn updated_mark(value: Option<Seq<char>>, dir: Seq<char>, uid: u32, gid: u32) -> Seq<RequestView> {
    if value == Some("1"@) {
        mark(under(dir, "omnect_bootloader_updated"@), uid, gid, 0o600)
    } else {
        Seq::empty()
    }
}

/// A read of the bootloader environment changes nothing.
proof fn lemma_env_read(t: Transcript, kind: BootloaderKind, key: BootEnvKey)
    ensures
        SessionEnv::reads(t, kind, key).2 is Ok ==> achieves(t, SessionEnv::reads(t, kind, key).0, Seq::empty()),
{
    lemma_achieves_nothing(t);
    let end = SessionEnv::reads(t, kind, key).0;
    if SessionEnv::reads(t, kind, key).2 is Ok {
        let request = end.asked.last();
        assert(end == t.ask(request));
        assert(quiet(request)) by {
            match kind {
                BootloaderKind::Grub => {
                    let args = seq!["/rootfs/boot/EFI/BOOT/grubenv"@] + seq!["list"@];
                    assert(args.len() == 2 && args[1] == "list"@);
                },
                BootloaderKind::UBoot => {},
            }
        }
        lemma_and_asks(t, t, request, Seq::empty());
    }
}

/// The bootloader environment decides which markers the service finds: that of an update to
/// validate, of a validation that failed, and of a bootloader that was updated.
pub proof fn law_update_markers(t: Transcript, kind: BootloaderKind, dir: Seq<char>, uid: u32, gid: u32)
    ensures
        ({
            let (end, after, r) = validated::<SessionEnv>(t, kind, dir, uid, gid);
            r is Ok ==> exists|validate: Option<Seq<char>>, updated: Option<Seq<char>>, middle: Transcript|
                {
                    &&& SessionEnv::reads(t, kind, BootEnvKey::ValidateUpdate).2 == EnvRead::Ok(validate)
                    &&& #[trigger] achieves(t, middle, validation_mark(validate, dir, uid, gid))
                    &&& SessionEnv::reads(middle, kind, BootEnvKey::BootloaderUpdated).2 == EnvRead::Ok(updated)
                    &&& achieves(middle, end, #[trigger] updated_mark(updated, dir, uid, gid))
                }
        }),
{
    let (end, after, r) = validated::<SessionEnv>(t, kind, dir, uid, gid);
    let (t1, s1, v) = SessionEnv::reads(t, kind, BootEnvKey::ValidateUpdate);
    reveal_strlit("omnect_validate_update");
    reveal_strlit("omnect_validate_update_failed");
    reveal_strlit("omnect_bootloader_updated");
    reveal_strlit("1");
    reveal_strlit("failed");
    assert("1"@.len() != "failed"@.len());
    lemma_env_read(t, kind, BootEnvKey::ValidateUpdate);
    if r is Ok {
        let none = Seq::<RequestView>::empty();
        let validate = v->Ok_0;
        lemma_marked(t1, dir, "omnect_validate_update"@, uid, gid, FilePermission::FileReadable);
        lemma_marked(t1, dir, "omnect_validate_update_failed"@, uid, gid, FilePermission::FileReadable);
        let steps = validation_mark(validate, dir, uid, gid);
        let middle = if validate == Some("1"@) {
            marked(t1, joined(dir, "omnect_validate_update"@), uid, gid, FilePermission::FileReadable).0
        } else if validate == Some("failed"@) {
            marked(t1, joined(dir, "omnect_validate_update_failed"@), uid, gid, FilePermission::FileReadable).0
        } else {
            t1
        };
        lemma_achieves_nothing(t1);
        assert(achieves(t1, middle, steps));
        lemma_achieves_further(t, t1, middle, none, steps);
        assert(none + steps =~= steps);
        assert((end, after, r) == update_marked::<SessionEnv>(middle, kind, dir, uid, gid));
        let (t2, s2, w) = SessionEnv::reads(middle, kind, BootEnvKey::BootloaderUpdated);
        lemma_env_read(middle, kind, BootEnvKey::BootloaderUpdated);
        let updated = w->Ok_0;
        lemma_achieves_nothing(t2);
        lemma_marked(t2, dir, "omnect_bootloader_updated"@, uid, gid, FilePermission::FileRestricted);
        let more = updated_mark(updated, dir, uid, gid);
        lemma_achieves_further(middle, t2, end, none, more);
        assert(none + more =~= more);
    }
}

/// A line of the tables of users and groups: name, password, number, and whatever else.
pub open spec fn entry(name: Seq<char>, password: Seq<char>, number: nat, more: Seq<char>) -> Seq<char> {
    name.push(':') + (password.push(':') + (dec_of(number).push(':') + more))
}

/// A line that names someone else is passed over.
pub proof fn law_others_passed_over(line: Seq<char>, content: Seq<char>, name: Seq<char>)
    requires
        one_line(line),
        split_of(line, ':')[0] != name,
    ensures
        id_from(lines_of(line.push('\n') + content), name, 0) == id_from(lines_of(content), name, 0),
{
    lemma_split_at(line, '\n', content);
    assert(strip_cr(line) == line);
    let ls = lines_of(content);
    assert(lines_of(line.push('\n') + content) == seq![line] + ls);
    assert((seq![line] + ls)[0] == line);
    lemma_ids_later(line, ls, name, 0);
}

proof fn lemma_ids_later(first: Seq<char>, ls: Seq<Seq<char>>, name: Seq<char>, i: int)
    requires
        0 <= i,
    ensures
        id_from(seq![first] + ls, name, i + 1) == id_from(ls, name, i),
    decreases ls.len() - i,
{
    if i < ls.len() {
        assert((seq![first] + ls)[i + 1] == ls[i]);
        lemma_ids_later(first, ls, name, i + 1);
    }
}

/// The number of a user is the third field of its line in etc/passwd of the root filesystem, and
/// that of a group the third field of its line in etc/group.
pub proof fn law_numbers(
    t: Transcript,
    rootfs: Seq<char>,
    name: Seq<char>,
    password: Seq<char>,
    number: u32,
    more: Seq<char>,
    content: Seq<char>,
)
    requires
        one_line(entry(name, password, number as nat, more)),
        !name.contains(':'),
        !password.contains(':'),
        t.rest.len() > 0,
        t.rest[0] == ReplyView::Text(entry(name, password, number as nat, more).push('\n') + content),
    ensures
        uid_looked_up(t, rootfs, name) == (
            t.ask(RequestView::ReadText(under(rootfs, "etc/passwd"@))),
            InitOutcome::<u32>::Ok(number),
        ),
        gid_looked_up(t, rootfs, name) == (
            t.ask(RequestView::ReadText(under(rootfs, "etc/group"@))),
            InitOutcome::<u32>::Ok(number),
        ),
{
    reveal_strlit("etc/passwd");
    reveal_strlit("etc/group");
    law_joined(rootfs, "etc/passwd"@);
    law_joined(rootfs, "etc/group"@);
    let line = entry(name, password, number as nat, more);
    let digits = dec_of(number as nat);
    lemma_split_at(line, '\n', content);
    assert(strip_cr(line) == line);
    let whole = line.push('\n') + content;
    assert(lines_of(whole) == seq![line] + lines_of(content));
    assert(lines_of(whole)[0] == line);
    let rest2 = dec_of(number as nat).push(':') + more;
    let rest1 = password.push(':') + rest2;
    lemma_split_at(name, ':', rest1);
    lemma_split_at(password, ':', rest2);
    lemma_dec(number as nat);
    assert forall|i: int| 0 <= i < digits.len() implies digits[i] != ':' by {
        assert(is_digit(digits[i]));
    }
    lemma_split_at(digits, ':', more);
    assert(split_of(rest2, ':') == seq![digits] + split_of(more, ':'));
    assert(split_of(rest1, ':') == seq![password] + split_of(rest2, ':'));
    assert(split_of(line, ':') == seq![name] + split_of(rest1, ':'));
    assert(split_of(line, ':')[0] == name);
    assert(split_of(line, ':')[2] == split_of(rest1, ':')[1]);
    assert(split_of(rest1, ':')[1] == split_of(rest2, ':')[0]);
    assert(split_of(line, ':')[2] == digits);
    lemma_parse_dec(number as nat);
}

/// The number that a table gives to a name.
pub open spec fn number_in(reply: ReplyView, name: Seq<char>, number: u32) -> bool {
    reply matches ReplyView::Text(content) && id_from(lines_of(content), name, 0) matches Some(field) && parse_u32_of(
        field,
    ) == Ok::<nat, ParseFault>(number as nat)
}

/// The numbers of the service were read, its status was written, and the markers followed.
pub open spec fn serves(
    t: Transcript,
    end: Transcript,
    s: Option<BootloaderKind>,
    status: OdsView,
    rootfs: Seq<char>,
    dir: Seq<char>,
    uid: u32,
    gid: u32,
    reported: Transcript,
) -> bool {
    let begun = t.ask(RequestView::ReadText(under(rootfs, "etc/passwd"@))).ask(
        RequestView::ReadText(under(rootfs, "etc/group"@)),
    );
    &&& t.rest.len() >= 2
    &&& number_in(t.rest[0], "omnect_device_service"@, uid)
    &&& number_in(t.rest[1], "omnect_device_service"@, gid)
    &&& status_created(begun, status, dir, uid, gid) == (reported, InitOutcome::<()>::Ok(()))
    &&& match s {
        Some(kind) => validated::<SessionEnv>(reported, kind, dir, uid, gid).0 == end && validated::<SessionEnv>(
            reported,
            kind,
            dir,
            uid,
            gid,
        ).2 is Ok,
        None => achieves(reported, end, Seq::empty()),
    }
}

/// The files of the service belong to the user and the group omnect_device_service of the root
/// filesystem. The status comes first, then the markers; without a bootloader there are none.
pub proof fn law_service_files(
    t: Transcript,
    s: Option<BootloaderKind>,
    status: OdsView,
    rootfs: Seq<char>,
    dir: Seq<char>,
)
    ensures
        ({
            let (end, after, r) = created::<SessionEnv>(t, s, status, rootfs, dir);
            r is Ok ==> exists|uid: u32, gid: u32, reported: Transcript|
                #[trigger] serves(t, end, s, status, rootfs, dir, uid, gid, reported)
        }),
{
    let (end, after, r) = created::<SessionEnv>(t, s, status, rootfs, dir);
    reveal_strlit("etc/passwd");
    reveal_strlit("etc/group");
    law_joined(rootfs, "etc/passwd"@);
    law_joined(rootfs, "etc/group"@);
    if r is Ok {
        let name = "omnect_device_service"@;
        let (t1, u) = uid_looked_up(t, rootfs, name);
        let (begun, g) = gid_looked_up(t1, rootfs, name);
        let uid = u->Ok_0;
        let gid = g->Ok_0;
        assert(number_in(t.rest[0], name, uid)) by {
            lemma_u32(id_from(lines_of(t.rest[0]->Text_0), name, 0)->0);
        }
        assert(t1.rest[0] == t.rest[1]);
        assert(number_in(t.rest[1], name, gid)) by {
            lemma_u32(id_from(lines_of(t.rest[1]->Text_0), name, 0)->0);
        }
        let (reported, done) = status_created(begun, status, dir, uid, gid);
        assert(status_created(begun, status, dir, uid, gid) == (reported, InitOutcome::<()>::Ok(())));
        lemma_achieves_nothing(reported);
        if s is None {
            lemma_and_asks(reported, reported, end.asked.last(), Seq::empty());
        }
        assert(serves(t, end, s, status, rootfs, dir, uid, gid, reported));
    }
}

proof fn lemma_u32(field: Seq<char>)
    ensures
        parse_u32_of(field) matches Ok(n) ==> n <= u32::MAX,
{
    if field.len() > 0 {
        lemma_scan_bound(field, 0, u32::MAX as nat);
        lemma_scan_bound(field.skip(1), 0, u32::MAX as nat);
    }
}

proof fn lemma_scan_bound(digits: Seq<char>, acc: nat, max: nat)
    requires
        acc <= max,
    ensures
        scan_of(digits, acc, max) matches Ok(n) ==> n <= max,
    decreases digits.len(),
{
    if digits.len() > 0 && is_digit(digits[0]) && acc * 10 + digit_value(digits[0]) <= max {
        lemma_scan_bound(digits.drop_first(), acc * 10 + digit_value(digits[0]), max);
    }
}

} // verus!
