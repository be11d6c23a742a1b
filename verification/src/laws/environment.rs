//! What the bootloader environment keeps

use vstd::prelude::*;
use vstd::utf8::encode_utf8;

use crate::bootloader::types::{law_record_round_trip, parsed_record, record_text};
use crate::bootloader::{grub, law_keys_differ, uboot, BootEnvKey, EnvRead, EnvRecord};
use crate::bytes::lossy_of;
use crate::filesystem::fsck_code::FsckExitCode;
use crate::laws::{asked_in, exited_well, name_of};
use crate::partition::layout::PartitionName;
use crate::system::{ReplyView, RequestView, Transcript};
use crate::text::{
    is_white, lemma_run_back_is, lemma_run_len_is, lines_of, other_than, split_once_of, strip_cr, trim_end_of, trim_of,
    trim_start_of, white,
};

verus! {

/// The name under which a variable stands in the environment.
pub open spec fn variable(key: BootEnvKey) -> Seq<char> {
    match key {
        BootEnvKey::ValidateUpdate => "omnect_validate_update"@,
        BootEnvKey::ValidateUpdateFailed => "omnect_validate_update_failed"@,
        BootEnvKey::BootloaderUpdated => "omnect_bootloader_updated"@,
        BootEnvKey::FsckStatus(p) => "omnect_fsck_"@ + name_of(p),
        BootEnvKey::FirstBootDone => "omnect_first_boot_done"@,
        BootEnvKey::ExtraBootArgs => "omnect_extra_bootargs"@,
        BootEnvKey::ResizedData => "omnect_resized_data"@,
        BootEnvKey::FactoryReset => "factory-reset"@,
        BootEnvKey::FactoryResetLastError => "omnect_factory_reset_last_error"@,
    }
}

/// A call of grub-editenv on the environment block of the boot partition.
pub open spec fn grub_editenv(args: Seq<Seq<char>>) -> RequestView {
    RequestView::Run { program: "/bin/grub-editenv"@, args: seq!["/rootfs/boot/EFI/BOOT/grubenv"@] + args }
}

/// A write to the GRUB environment asks for one edit of the environment block, `set` with the
/// assignment or `unset` with the name, and succeeds if and only if that edit does and the disks
/// were written back after it.
pub proof fn law_grub_write(t: Transcript, key: BootEnvKey, value: Option<Seq<char>>)
    ensures
        ({
            let (end, r) = grub::edited(t, key, value);
            let edit = match value {
                Some(v) => grub_editenv(seq!["set"@, variable(key) + "="@ + v]),
                None => grub_editenv(seq!["unset"@, variable(key)]),
            };
            &&& asked_in(t, end).len() > 0
            &&& asked_in(t, end)[0] == edit
            &&& r is Ok <==> t.rest.len() >= 2 && exited_well(t.rest[0])
            &&& r is Ok ==> asked_in(t, end) == seq![edit, RequestView::Sync]
        }),
{
    let (end, r) = grub::edited(t, key, value);
    match value {
        Some(v) => assert(seq!["/rootfs/boot/EFI/BOOT/grubenv"@] + seq!["set"@, variable(key) + "="@ + v]
            == seq!["/rootfs/boot/EFI/BOOT/grubenv"@, "set"@, variable(key) + "="@ + v]),
        None => assert(seq!["/rootfs/boot/EFI/BOOT/grubenv"@] + seq!["unset"@, variable(key)]
            == seq!["/rootfs/boot/EFI/BOOT/grubenv"@, "unset"@, variable(key)]),
    }
    if r is Ok {
        assert(asked_in(t, end) =~= seq![asked_in(t, end)[0], RequestView::Sync]);
    }
}

/// The variables of an environment block, in the order in which they are listed.
pub type Variables = Seq<(Seq<char>, Seq<char>)>;

/// What grub-editenv lists: a line `name=value` for each variable.
pub open spec fn listing(env: Variables) -> Seq<char>
    decreases env.len(),
{
    if env.len() == 0 {
        Seq::empty()
    } else {
        env[0].0.push('=') + env[0].1.push('\n') + listing(env.drop_first())
    }
}

/// The value of the first variable of this name.
pub open spec fn lookup(env: Variables, name: Seq<char>) -> Option<Seq<char>>
    decreases env.len(),
{
    if env.len() == 0 {
        None
    } else if env[0].0 == name {
        Some(env[0].1)
    } else {
        lookup(env.drop_first(), name)
    }
}

/// A text within one line.
pub open spec fn one_line(text: Seq<char>) -> bool {
    forall|i: int| 0 <= i < text.len() ==> (#[trigger] text[i]) != '\n' && text[i] != '\r'
}

/// No name holds the sign that ends it, and names and values stay within their lines.
pub open spec fn listable(env: Variables) -> bool {
    forall|i: int|
        0 <= i < env.len() ==> one_line((#[trigger] env[i]).0) && one_line(env[i].1) && !env[i].0.contains('=')
}

/// The environment block without a variable.
pub open spec fn unset(env: Variables, name: Seq<char>) -> Variables
    decreases env.len(),
{
    if env.len() == 0 {
        env
    } else if env[0].0 == name {
        unset(env.drop_first(), name)
    } else {
        seq![env[0]] + unset(env.drop_first(), name)
    }
}

/// What an edit that succeeds makes of the environment block.
pub open spec fn after_edit(env: Variables, request: RequestView) -> Variables {
    match request {
        RequestView::Run { program, args } => {
            if program != "/bin/grub-editenv"@ || args.len() != 3 || args[0] != "/rootfs/boot/EFI/BOOT/grubenv"@ {
                env
            } else if args[1] == "set"@ {
                match split_once_of(args[2], '=') {
                    Some((name, value)) => unset(env, name).push((name, value)),
                    None => env,
                }
            } else if args[1] == "unset"@ {
                unset(env, args[2])
            } else {
                env
            }
        },
        _ => env,
    }
}

proof fn lemma_unset(env: Variables, name: Seq<char>, other: Seq<char>)
    ensures
        lookup(unset(env, name), name) is None,
        other != name ==> lookup(unset(env, name), other) == lookup(env, other),
        listable(env) ==> listable(unset(env, name)),
    decreases env.len(),
{
    if env.len() > 0 {
        let rest = env.drop_first();
        lemma_unset(rest, name, other);
        if listable(env) {
            assert forall|i: int| 0 <= i < rest.len() implies one_line((#[trigger] rest[i]).0) && one_line(rest[i].1)
                && !rest[i].0.contains('=') by {
                assert(rest[i] == env[i + 1]);
            }
        }
        if env[0].0 != name {
            let kept = unset(env, name);
            assert(kept.drop_first() =~= unset(rest, name));
            if listable(env) {
                assert forall|i: int|
                    0 <= i < kept.len() implies one_line((#[trigger] kept[i]).0) && one_line(kept[i].1)
                    && !kept[i].0.contains('=') by {
                    if i > 0 {
                        assert(kept[i] == unset(rest, name)[i - 1]);
                    }
                }
            }
        }
    }
}

proof fn lemma_lookup_push(env: Variables, name: Seq<char>, value: Seq<char>, wanted: Seq<char>)
    ensures
        lookup(env.push((name, value)), wanted) == match lookup(env, wanted) {
            Some(v) => Some(v),
            None => if wanted == name {
                Some(value)
            } else {
                None
            },
        },
    decreases env.len(),
{
    let longer = env.push((name, value));
    if env.len() > 0 {
        lemma_lookup_push(env.drop_first(), name, value, wanted);
        assert(longer.drop_first() =~= env.drop_first().push((name, value)));
    } else {
        assert(longer.drop_first() =~= Seq::empty());
        assert(lookup(longer.drop_first(), wanted) is None);
    }
}

/// A text before the first of the signs that split it, and what stands after that sign.
pub proof fn lemma_split_at(before: Seq<char>, sign: char, after: Seq<char>)
    requires
        !before.contains(sign),
    ensures
        split_once_of(before.push(sign) + after, sign) == Some((before, after)),
{
    let whole = before.push(sign) + after;
    assert forall|i: int| 0 <= i < before.len() implies other_than(sign)(#[trigger] whole[i]) by {
        assert(whole[i] == before[i]);
    }
    lemma_run_len_is(whole, other_than(sign), before.len());
    assert(whole.take(before.len() as int) =~= before);
    assert(whole.skip(before.len() as int + 1) =~= after);
}

proof fn lemma_listed_later(first: Seq<char>, ls: Seq<Seq<char>>, name: Seq<char>, i: int)
    requires
        0 <= i,
    ensures
        grub::listed_from(seq![first] + ls, name, i + 1) == grub::listed_from(ls, name, i),
    decreases ls.len() - i,
{
    if i < ls.len() {
        assert((seq![first] + ls)[i + 1] == ls[i]);
        lemma_listed_later(first, ls, name, i + 1);
    }
}

proof fn lemma_listed(env: Variables, name: Seq<char>)
    requires
        listable(env),
    ensures
        grub::listed(listing(env), name) == lookup(env, name),
    decreases env.len(),
{
    if env.len() == 0 {
        lemma_run_len_is(listing(env), other_than('\n'), 0);
        assert(lines_of(listing(env)).len() == 0);
    } else {
        let rest = env.drop_first();
        assert forall|i: int| 0 <= i < rest.len() implies one_line((#[trigger] rest[i]).0) && one_line(rest[i].1)
            && !rest[i].0.contains('=') by {
            assert(rest[i] == env[i + 1]);
        }
        lemma_listed(rest, name);
        let line = env[0].0.push('=') + env[0].1;
        assert(one_line(env[0].0) && one_line(env[0].1) && !env[0].0.contains('='));
        assert(one_line(line)) by {
            assert forall|i: int| 0 <= i < line.len() implies (#[trigger] line[i]) != '\n' && line[i] != '\r' by {
                if i < env[0].0.len() {
                    assert(line[i] == env[0].0[i]);
                } else if i > env[0].0.len() {
                    assert(line[i] == env[0].1[i - env[0].0.len() - 1]);
                }
            }
        }
        assert(listing(env) =~= line.push('\n') + listing(rest));
        lemma_split_at(line, '\n', listing(rest));
        assert(strip_cr(line) == line);
        assert(lines_of(listing(env)) == seq![line] + lines_of(listing(rest)));
        lemma_split_at(env[0].0, '=', env[0].1);
        lemma_listed_later(line, lines_of(listing(rest)), name, 0);
        assert((seq![line] + lines_of(listing(rest)))[0] == line);
    }
}

pub proof fn lemma_variable(key: BootEnvKey)
    ensures
        key.text() == variable(key),
        one_line(variable(key)),
        !variable(key).contains('='),
{
    reveal_strlit("omnect_validate_update");
    reveal_strlit("omnect_validate_update_failed");
    reveal_strlit("omnect_bootloader_updated");
    reveal_strlit("omnect_fsck_");
    reveal_strlit("omnect_first_boot_done");
    reveal_strlit("omnect_extra_bootargs");
    reveal_strlit("omnect_resized_data");
    reveal_strlit("factory-reset");
    reveal_strlit("omnect_factory_reset_last_error");
    reveal_strlit("boot");
    reveal_strlit("rootA");
    reveal_strlit("rootB");
    reveal_strlit("rootCurrent");
    reveal_strlit("factory");
    reveal_strlit("cert");
    reveal_strlit("etc");
    reveal_strlit("data");
    reveal_strlit("extended");
}

/// A read of the GRUB environment asks for the listing, and nothing else, and reads from it the
/// value of the variable.
pub proof fn law_grub_read(t: Transcript, key: BootEnvKey, env: Variables)
    requires
        listable(env),
        t.rest.len() > 0,
        t.rest[0] matches ReplyView::Output(out) && out.code == Some(0i32) && out.stdout == listing(env),
    ensures
        asked_in(t, grub::got(t, key).0) == seq![grub_editenv(seq!["list"@])],
        grub::got(t, key).1 == EnvRead::Ok(lookup(env, variable(key))),
{
    lemma_listed(env, variable(key));
    lemma_variable(key);
    assert(asked_in(t, grub::got(t, key).0) =~= seq![grub_editenv(seq!["list"@])]);
}

/// After a successful write to the GRUB environment the variable reads as it was written, or is
/// gone where nothing was written, and every other variable reads as before.
pub proof fn law_grub_read_after_write(
    t: Transcript,
    u: Transcript,
    env: Variables,
    key: BootEnvKey,
    value: Option<Seq<char>>,
    other: BootEnvKey,
)
    requires
        listable(env),
        value matches Some(v) ==> one_line(v),
        grub::edited(t, key, value).1 is Ok,
        u.rest.len() > 0,
        u.rest[0] matches ReplyView::Output(out) && out.code == Some(0i32) && out.stdout == listing(
            after_edit(env, asked_in(t, grub::edited(t, key, value).0)[0]),
        ),
    ensures
        grub::got(u, key).1 == EnvRead::Ok(value),
        other != key ==> grub::got(u, other).1 == EnvRead::Ok(lookup(env, variable(other))),
{
    let after = after_edit(env, asked_in(t, grub::edited(t, key, value).0)[0]);
    law_grub_write(t, key, value);
    lemma_variable(key);
    lemma_variable(other);
    lemma_unset(env, variable(key), variable(other));
    law_keys_differ(key, other);
    reveal_strlit("set");
    reveal_strlit("unset");
    assert("set"@.len() != "unset"@.len());
    match value {
        Some(v) => {
            reveal_strlit("=");
            assert(variable(key) + "="@ + v =~= variable(key).push('=') + v);
            lemma_split_at(variable(key), '=', v);
            let kept = unset(env, variable(key));
            assert(after == kept.push((variable(key), v)));
            lemma_lookup_push(kept, variable(key), v, variable(key));
            lemma_lookup_push(kept, variable(key), v, variable(other));
            assert(listable(after)) by {
                assert forall|i: int|
                    0 <= i < after.len() implies one_line((#[trigger] after[i]).0) && one_line(after[i].1)
                    && !after[i].0.contains('=') by {
                    if i < kept.len() {
                        assert(after[i] == kept[i]);
                    }
                }
            }
        },
        None => {
            assert(after == unset(env, variable(key)));
        },
    }
    law_grub_read(u, key, after);
    law_grub_read(u, other, after);
}

/// What fw_setenv makes of the U-Boot environment: it sets the variable, or removes it where no
/// value is given.
pub open spec fn after_setenv(env: Map<Seq<char>, Seq<char>>, request: RequestView) -> Map<Seq<char>, Seq<char>> {
    match request {
        RequestView::Run { program, args } => {
            if program != "/bin/fw_setenv"@ {
                env
            } else if args.len() == 2 && args[1].len() > 0 {
                env.insert(args[0], args[1])
            } else if args.len() == 1 || args.len() == 2 {
                env.remove(args[0])
            } else {
                env
            }
        },
        _ => env,
    }
}

/// What fw_printenv answers: with `-n`, the bare value of the variable and a line break, and the
/// exit code 1 where there is none.
pub open spec fn answers_printenv(env: Map<Seq<char>, Seq<char>>, request: RequestView, reply: ReplyView) -> bool {
    match (request, reply) {
        (RequestView::Run { program, args }, ReplyView::Output(out)) => {
            &&& program == "/bin/fw_printenv"@
            &&& args.len() == 2
            &&& args[0] == "-n"@
            &&& if env.contains_key(args[1]) {
                out.code == Some(0i32) && out.stdout == env[args[1]].push('\n')
            } else {
                out.code == Some(1i32)
            }
        },
        _ => false,
    }
}

/// A value that neither begins nor ends with white space, and is not empty.
pub open spec fn trimmed(value: Seq<char>) -> bool {
    value.len() > 0 && !is_white(value[0]) && !is_white(value.last())
}

proof fn lemma_trim_line(value: Seq<char>)
    requires
        trimmed(value),
    ensures
        trim_of(value.push('\n')) == value,
{
    let line = value.push('\n');
    assert(!white()(line[0]));
    lemma_run_len_is(line, white(), 0);
    assert(trim_start_of(line) =~= line);
    assert(!white()(line[line.len() - 2]));
    lemma_run_back_is(line, white(), 1);
    assert(trim_end_of(line) =~= value);
}

/// A write to the U-Boot environment is one call of fw_setenv with the name and, where there is
/// one, the value; it succeeds if and only if that call does.
pub proof fn law_uboot_write(t: Transcript, key: BootEnvKey, value: Option<Seq<char>>)
    ensures
        ({
            let (end, r) = uboot::put(t, key, value);
            &&& asked_in(t, end) == seq![
                RequestView::Run {
                    program: "/bin/fw_setenv"@,
                    args: match value {
                        Some(v) => seq![variable(key), v],
                        None => seq![variable(key)],
                    },
                },
            ]
            &&& r is Ok <==> t.rest.len() >= 1 && exited_well(t.rest[0])
        }),
{
    let (end, r) = uboot::put(t, key, value);
    lemma_variable(key);
    assert(asked_in(t, end) =~= seq![asked_in(t, end)[0]]);
}

/// A read of the U-Boot environment is one call of fw_printenv, and gives the value of the
/// variable.
pub proof fn law_uboot_read(t: Transcript, key: BootEnvKey, env: Map<Seq<char>, Seq<char>>)
    requires
        t.rest.len() > 0,
        env.contains_key(variable(key)) ==> trimmed(env[variable(key)]),
        answers_printenv(
            env,
            RequestView::Run { program: "/bin/fw_printenv"@, args: seq!["-n"@, variable(key)] },
            t.rest[0],
        ),
    ensures
        asked_in(t, uboot::got(t, key).0) == seq![
            RequestView::Run { program: "/bin/fw_printenv"@, args: seq!["-n"@, variable(key)] },
        ],
        uboot::got(t, key).1 == EnvRead::Ok(
            if env.contains_key(variable(key)) {
                Some(env[variable(key)])
            } else {
                None
            },
        ),
{
    let end = uboot::got(t, key).0;
    lemma_variable(key);
    assert(asked_in(t, end) =~= seq![asked_in(t, end)[0]]);
    if env.contains_key(variable(key)) {
        lemma_trim_line(env[variable(key)]);
    }
}

/// After a successful write to the U-Boot environment the variable reads as it was written, or is
/// gone where nothing was written, and every other variable reads as before.
pub proof fn law_uboot_read_after_write(
    t: Transcript,
    u: Transcript,
    env: Map<Seq<char>, Seq<char>>,
    key: BootEnvKey,
    value: Option<Seq<char>>,
    read: BootEnvKey,
)
    requires
        value matches Some(v) ==> trimmed(v),
        env.contains_key(variable(read)) ==> trimmed(env[variable(read)]),
        uboot::put(t, key, value).1 is Ok,
        u.rest.len() > 0,
        answers_printenv(
            after_setenv(env, asked_in(t, uboot::put(t, key, value).0)[0]),
            asked_in(u, uboot::got(u, read).0)[0],
            u.rest[0],
        ),
    ensures
        read == key ==> uboot::got(u, read).1 == EnvRead::Ok(value),
        read != key ==> uboot::got(u, read).1 == EnvRead::Ok(
            if env.contains_key(variable(read)) {
                Some(env[variable(read)])
            } else {
                None
            },
        ),
{
    let after = after_setenv(env, asked_in(t, uboot::put(t, key, value).0)[0]);
    law_uboot_write(t, key, value);
    lemma_variable(key);
    lemma_variable(read);
    law_keys_differ(key, read);
    assert(asked_in(u, uboot::got(u, read).0)[0] == RequestView::Run {
        program: "/bin/fw_printenv"@,
        args: seq!["-n"@, variable(read)],
    });
    law_uboot_read(u, read, after);
}

/// The file on the boot partition that keeps the fsck record of a partition.
pub open spec fn record_file(partition: PartitionName) -> Seq<char> {
    "/rootfs/boot/fsck."@ + name_of(partition)
}

/// A call of a program that reads `input` and writes something else.
pub open spec fn piped(program: Seq<char>, args: Seq<Seq<char>>, input: Seq<u8>) -> RequestView {
    RequestView::Pipe { program, args, input }
}

/// A program ended with the exit code 0 and wrote these bytes.
pub open spec fn wrote(bytes: Seq<u8>) -> ReplyView {
    ReplyView::Bytes { code: Some(0i32), stdout: bytes }
}

pub proof fn lemma_record_file(partition: PartitionName)
    ensures
        grub::fsck_file_of(partition) == record_file(partition),
{
    reveal_strlit("/rootfs/boot");
    reveal_strlit("fsck.");
    reveal_strlit("/rootfs/boot/fsck.");
    reveal_strlit("/");
    lemma_variable(BootEnvKey::FsckStatus(partition));
    assert(partition.text() == name_of(partition));
    assert(grub::fsck_file_of(partition) =~= record_file(partition));
}

/// The fsck record of a partition is packed and written to a file of its own on the boot
/// partition; it is read from that file, which is removed, and what was recorded comes back
/// where the tools unpack what they packed.
pub proof fn law_grub_record(
    t: Transcript,
    u: Transcript,
    partition: PartitionName,
    code: FsckExitCode,
    output: Seq<char>,
    packed: Seq<u8>,
    letters: Seq<u8>,
    unpacked: Seq<u8>,
)
    requires
        partition != PartitionName::Boot,
        t.rest.len() >= 4,
        t.rest[0] == wrote(packed),
        t.rest[1] == wrote(letters),
        !(t.rest[2] is Failed),
        u.rest.len() >= 5,
        u.rest[0] == ReplyView::Flag(true),
        u.rest[1] == ReplyView::Text(trim_of(lossy_of(letters))),
        u.rest[3] == wrote(packed),
        u.rest[4] == wrote(unpacked),
        asked_in(t, grub::saved(t, partition, code, output).0)[0] == piped(
            "/bin/gzip"@,
            seq!["-c"@],
            encode_utf8(lossy_of(unpacked)),
        ),
    ensures
        grub::saved(t, partition, code, output).1 is Ok,
        asked_in(t, grub::saved(t, partition, code, output).0).skip(1) == seq![
            piped("/bin/base64"@, seq!["-w"@, "0"@], packed),
            RequestView::WriteText { path: record_file(partition), text: trim_of(lossy_of(letters)) },
            RequestView::Sync,
        ],
        asked_in(u, grub::recalled(u, partition).0) == seq![
            RequestView::IsFile(record_file(partition)),
            RequestView::ReadText(record_file(partition)),
            RequestView::RemoveFile(record_file(partition)),
            piped("/bin/base64"@, seq!["-d"@], encode_utf8(trim_of(lossy_of(letters)))),
            piped("/bin/gunzip"@, seq!["-c"@], packed),
        ],
        grub::recalled(u, partition).1 == EnvRecord::Ok(Some((code, output))),
{
    lemma_record_file(partition);
    lemma_packed(code, output, lossy_of(unpacked));
    let written = asked_in(t, grub::saved(t, partition, code, output).0);
    assert(t.ask(written[0]).rest[0] == t.rest[1]);
    assert(written.skip(1) =~= seq![written[1], written[2], written[3]]);
    let u1 = u.ask(RequestView::IsFile(record_file(partition)));
    let u2 = u1.ask(RequestView::ReadText(record_file(partition)));
    let u3 = u2.ask(RequestView::RemoveFile(record_file(partition)));
    assert(u1.next() == Some(u.rest[1]));
    assert(u2.next() == Some(u.rest[2]));
    assert(u3.next() == Some(u.rest[3]));
    assert(u3.ask(piped("/bin/base64"@, seq!["-d"@], encode_utf8(trim_of(lossy_of(letters))))).next() == Some(u.rest[4]));
    let read = asked_in(u, grub::recalled(u, partition).0);
    assert(read =~= seq![read[0], read[1], read[2], read[3], read[4]]);
}

/// Where the text of a record is handed to gzip, the record is read back from that text.
pub proof fn lemma_packed(code: FsckExitCode, output: Seq<char>, text: Seq<char>)
    requires
        encode_utf8(record_text(code.0 as int, output)) == encode_utf8(text),
    ensures
        text == record_text(code.0 as int, output),
        parsed_record(text) == Some((code.0 as int, output)),
{
    vstd::utf8::encode_utf8_decode_utf8(text);
    vstd::utf8::encode_utf8_decode_utf8(record_text(code.0 as int, output));
    law_record_round_trip(code.0, output);
}

} // verus!
