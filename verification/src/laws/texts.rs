//! How texts are taken apart

use vstd::prelude::*;

use crate::bootloader::{failure_text, truncated};
use crate::error::{FilesystemError, InitErrorView, InitramfsError, ResizeDataError};
use crate::filesystem::mount::{line_mounts, lists_mount};
use crate::init_setup::extra_bootargs::{combined, law_squeeze_stable};
use crate::laws::environment::{lemma_split_at, one_line};
use crate::laws::name_of;
use crate::partition::device::{blkid_device, detected_from, device_beside, device_of_line, has_field, param_of};
use crate::partition::layout::PartitionName;
use crate::recovery::{policy, Action};
use crate::runtime::status::FactoryResetStatusCode;
use crate::system::Transcript;
use crate::text::{
    dec_of, find, inked, is_white, is_word, join_of, lemma_join_first, lemma_leading_space, lemma_run_back,
    lemma_run_len, lemma_run_len_is, lemma_word_first, lines_of, other_than, parse_u32_of, run_back, run_len, split_of,
    strip_cr, trim_of, trim_start_of, white, words_of,
};

verus! {

/// White space, among the ASCII characters, is the blank, and what lies between the tabulator and
/// the carriage return.
pub proof fn law_white(c: char)
    requires
        (c as u32) < 128,
    ensures
        is_white(c) <==> c == ' ' || c == '\t' || c == '\n' || c == '\u{b}' || c == '\u{c}' || c == '\r',
{
}

/// A text is trimmed to the part between its first and its last character that is no white space.
pub proof fn law_trim(s: Seq<char>)
    ensures
        exists|i: int, j: int|
            #![trigger s.subrange(i, j)]
            {
                &&& 0 <= i <= j <= s.len()
                &&& trim_of(s) == s.subrange(i, j)
                &&& forall|k: int| 0 <= k < i || j <= k < s.len() ==> is_white(#[trigger] s[k])
                &&& i < j ==> !is_white(s[i]) && !is_white(s[j - 1])
            },
{
    let i = run_len(s, white()) as int;
    lemma_run_len(s, white());
    let t = s.skip(i);
    lemma_run_back(t, white());
    let n = run_back(t, white()) as int;
    let j = s.len() - n;
    assert(trim_of(s) =~= s.subrange(i, j));
    assert forall|k: int| 0 <= k < i || j <= k < s.len() implies is_white(#[trigger] s[k]) by {
        if k < i {
            assert(white()(s[k]));
        } else {
            assert(t[k - i] == s[k]);
            assert(white()(t[k - i]));
        }
    }
    if i < j {
        assert(!white()(s[i]));
        assert(t[t.len() - n - 1] == s[j - 1]);
    }
}

/// A text is split at every occurrence of a sign: put together again with that sign between them,
/// the pieces are the text, and none of them holds the sign.
pub proof fn law_split(s: Seq<char>, c: char)
    ensures
        split_of(s, c).len() > 0,
        join_of(split_of(s, c), seq![c]) == s,
        forall|i: int| 0 <= i < split_of(s, c).len() ==> !(#[trigger] split_of(s, c)[i]).contains(c),
    decreases s.len(),
{
    let at = find(s, c) as int;
    lemma_run_len(s, other_than(c));
    let pieces = split_of(s, c);
    if at < s.len() {
        let (head, tail) = (s.take(at), s.skip(at + 1));
        law_split(tail, c);
        let rest = split_of(tail, c);
        assert(pieces == seq![head] + rest);
        lemma_join_first(pieces, seq![c]);
        assert(pieces.drop_first() =~= rest);
        assert(!other_than(c)(s[at]));
        assert(s =~= head + seq![c] + tail);
        assert forall|k: int| 0 <= k < head.len() implies head[k] != c by {
            assert(other_than(c)(s[k]));
        }
        assert forall|i: int| 0 <= i < pieces.len() implies !(#[trigger] pieces[i]).contains(c) by {
            if i > 0 {
                assert(pieces[i] == rest[i - 1]);
            }
        }
    } else {
        assert(pieces == seq![s]);
        assert forall|k: int| 0 <= k < s.len() implies s[k] != c by {
            assert(other_than(c)(s[k]));
        }
        assert(pieces[0] == s);
    }
}

/// A line is what stands before a line break, without a carriage return at its end.
pub proof fn law_lines(line: Seq<char>, rest: Seq<char>)
    requires
        one_line(line),
    ensures
        lines_of(line.push('\n') + rest) == seq![line] + lines_of(rest),
        lines_of(line.push('\r').push('\n') + rest) == seq![line] + lines_of(rest),
        line.len() > 0 ==> lines_of(line) == seq![line],
{
    lemma_split_at(line, '\n', rest);
    assert(strip_cr(line) == line);
    let long = line.push('\r');
    assert forall|i: int| 0 <= i < long.len() implies long[i] != '\n' by {
        if i < line.len() {
            assert(long[i] == line[i]);
        }
    }
    lemma_split_at(long, '\n', rest);
    assert(strip_cr(long) =~= line);
    assert forall|i: int| 0 <= i < line.len() implies other_than('\n')(#[trigger] line[i]) by {}
    lemma_run_len_is(line, other_than('\n'), line.len());
}

/// White space before a text changes nothing of its words.
proof fn lemma_leading_white(before: Seq<char>, s: Seq<char>)
    requires
        forall|i: int| 0 <= i < before.len() ==> is_white(#[trigger] before[i]),
    ensures
        words_of(before + s) == words_of(s),
{
    let whole = before + s;
    let n = run_len(s, white());
    lemma_run_len(s, white());
    assert forall|i: int| 0 <= i < before.len() + n implies white()(#[trigger] whole[i]) by {
        if i < before.len() {
            assert(whole[i] == before[i]);
        } else {
            assert(whole[i] == s[i - before.len()]);
        }
    }
    if before.len() + n < whole.len() {
        assert(whole[before.len() + n as int] == s[n as int]);
    }
    lemma_run_len_is(whole, white(), before.len() + n);
    assert(trim_start_of(whole) =~= trim_start_of(s));
}

/// The words of two texts with a blank between them are the words of the one and then those of
/// the other.
pub proof fn law_words(a: Seq<char>, b: Seq<char>)
    ensures
        words_of(a + " "@ + b) == words_of(a) + words_of(b),
    decreases a.len(),
{
    reveal_strlit(" ");
    let t = trim_start_of(a);
    let k = run_len(a, white()) as int;
    lemma_run_len(a, white());
    let n = run_len(t, inked()) as int;
    lemma_run_len(t, inked());
    let blank = a.take(k);
    assert forall|i: int| 0 <= i < blank.len() implies is_white(#[trigger] blank[i]) by {
        assert(white()(a[i]));
    }
    assert(a =~= blank + t);
    assert(a + " "@ + b =~= blank + (t + " "@ + b));
    lemma_leading_white(blank, t + " "@ + b);
    lemma_leading_white(blank, t);
    if n > 0 {
        let w = t.take(n);
        let rest = t.skip(n);
        assert(is_word(w)) by {
            assert forall|i: int| 0 <= i < w.len() implies !is_white(#[trigger] w[i]) by {
                assert(inked()(t[i]));
            }
        }
        assert(t =~= w + rest);
        if rest.len() > 0 {
            assert(!inked()(t[n]));
            assert(rest[0] == t[n]);
        }
        assert(t + " "@ + b =~= w + (rest + " "@ + b));
        assert((rest + " "@ + b)[0] == if rest.len() > 0 {
            rest[0]
        } else {
            ' '
        });
        lemma_word_first(w, rest + " "@ + b);
        lemma_word_first(w, rest);
        law_words(rest, b);
        assert(seq![w] + (words_of(rest) + words_of(b)) =~= seq![w] + words_of(rest) + words_of(b));
    } else {
        if t.len() > 0 {
            assert(!inked()(t[0]));
            assert(t[0] == a[k]);
            assert(!white()(a[k]));
        }
        assert(t.len() == 0);
        assert(t + " "@ + b =~= " "@ + b);
        lemma_leading_space(b);
        assert(words_of(a).len() == 0);
        assert(words_of(a) + words_of(b) =~= words_of(b));
    }
}

/// The extra arguments of the kernel are the words of the first file and then those of the
/// second.
pub proof fn law_extra_arguments(omnect: Seq<char>, custom: Seq<char>)
    ensures
        words_of(combined(Some(omnect), Some(custom))) == words_of(omnect) + words_of(custom),
        words_of(combined(Some(omnect), None)) == words_of(omnect),
        words_of(combined(None, Some(custom))) == words_of(custom),
{
    law_words(omnect, custom);
    law_squeeze_stable(omnect + " "@ + custom);
    law_squeeze_stable(omnect);
    law_squeeze_stable(custom);
}

/// A line of the table of mounts names the device, then the place, then the rest: something is
/// mounted at a place if and only if a line names it as the second word.
pub proof fn law_mount_table(device: Seq<char>, place: Seq<char>, more: Seq<char>, rest: Seq<char>, wanted: Seq<char>)
    requires
        is_word(device),
        is_word(place),
        one_line(device + " "@ + place + " "@ + more),
    ensures
        lists_mount((device + " "@ + place + " "@ + more).push('\n') + rest, wanted) <==> place == wanted || lists_mount(
            rest,
            wanted,
        ),
{
    reveal_strlit(" ");
    let line = device + " "@ + place + " "@ + more;
    let after = " "@ + place + " "@ + more;
    law_lines(line, rest);
    let text = line.push('\n') + rest;
    let ls = lines_of(rest);
    assert(lines_of(text) == seq![line] + ls);
    assert(line =~= device + after);
    lemma_word_first(device, after);
    assert(after =~= " "@ + (place + (" "@ + more)));
    lemma_leading_space(place + (" "@ + more));
    lemma_word_first(place, " "@ + more);
    assert(words_of(line)[1] == place);
    assert(lines_of(text)[0] == line);
    if place == wanted {
        assert(line_mounts(lines_of(text)[0], wanted));
    }
    if lists_mount(rest, wanted) {
        let i = choose|i: int| 0 <= i < ls.len() && line_mounts(#[trigger] ls[i], wanted);
        assert(lines_of(text)[i + 1] == ls[i]);
    }
    if lists_mount(text, wanted) {
        let i = choose|i: int| 0 <= i < lines_of(text).len() && line_mounts(#[trigger] lines_of(text)[i], wanted);
        if i > 0 {
            assert(lines_of(text)[i] == ls[i - 1]);
        }
    }
}

/// The device of a filesystem is what stands before the colon in the first line of blkid that
/// names its UUID.
pub proof fn law_blkid(device: Seq<char>, more: Seq<char>, rest: Seq<char>, uuid: Seq<char>)
    requires
        one_line(device.push(':') + more),
        !device.contains(':'),
        device.len() > 0 && !is_white(device[0]) && !is_white(device.last()),
    ensures
        ({
            let line = device.push(':') + more;
            let field = "UUID=\""@ + uuid + "\""@;
            blkid_device(line.push('\n') + rest, uuid) == if words_of(line).contains(field) {
                Some(device)
            } else {
                blkid_device(rest, uuid)
            }
        }),
{
    let line = device.push(':') + more;
    let field = "UUID=\""@ + uuid + "\""@;
    law_lines(line, rest);
    let ls = lines_of(rest);
    let all = seq![line] + ls;
    assert(lines_of(line.push('\n') + rest) == all);
    assert(all[0] == line);
    lemma_split_at(device, ':', more);
    assert(has_field(line, field) <==> words_of(line).contains(field));
    law_trim(device);
    lemma_run_len_is(device, white(), 0);
    assert(device.skip(0) =~= device);
    crate::text::lemma_run_back_is(device, white(), 0);
    assert(device.take(device.len() as int) =~= device);
    assert(trim_of(device) == device);
    lemma_lines_later(line, ls, field, 0);
}

proof fn lemma_lines_later(first: Seq<char>, ls: Seq<Seq<char>>, needle: Seq<char>, i: int)
    requires
        0 <= i,
    ensures
        device_of_line(seq![first] + ls, needle, i + 1) == device_of_line(ls, needle, i),
    decreases ls.len() - i,
{
    if i < ls.len() {
        assert((seq![first] + ls)[i + 1] == ls[i]);
        lemma_lines_later(first, ls, needle, i + 1);
    }
}

/// A partition number on the command line names a partition of the disk of the boot partition; a
/// path names the root partition itself.
pub proof fn law_root_partition(t: Transcript, cmdline: Seq<char>)
    ensures
        detected_from(t, cmdline).1 matches Ok(device) ==> match param_of(cmdline, "rootpart"@) {
            Some(number) => parse_u32_of(number) matches Ok(n) && device.root_partition == device.base
                + device.partition_sep + dec_of(n),
            None => param_of(cmdline, "root"@) == Some(device.root_partition),
        },
{
    reveal_strlit("/dev");
    reveal_strlit("/dev/");
    reveal_strlit("/");
    if detected_from(t, cmdline).1 is Ok {
        let device = detected_from(t, cmdline).1->Ok_0;
        if param_of(cmdline, "rootpart"@) is Some {
            let n = parse_u32_of(param_of(cmdline, "rootpart"@)->0)->Ok_0;
            let fsuuid = param_of(cmdline, "bootpart_fsuuid"@)->0;
            let t1 = t.ask(crate::system::RequestView::Clock);
            let start = crate::system::millis_of(t.next()->0);
            let part = crate::partition::device::polling(t1, fsuuid, start).1->Ok_0;
            assert(device_beside(part, n) is Ok && device_beside(part, n)->Ok_0 == device);
            let name = crate::path::file_name_of(part)->0;
            let (base, sep) = crate::partition::device::split_suffix_of(name)->Ok_0;
            lemma_no_slash(part);
            assert(!(base.len() > 0 && base[0] == '/')) by {
                if base.len() > 0 {
                    assert(base[0] == name[0]);
                    assert(name[0] != '/');
                }
            }
            crate::laws::law_joined("/dev"@, base);
            assert(device.base =~= "/dev/"@ + base);
            assert(device.root_partition =~= device.base + device.partition_sep + dec_of(n));
        }
    }
}

/// A file name does not begin with a slash.
proof fn lemma_no_slash(path: Seq<char>)
    ensures
        crate::path::file_name_of(path) matches Some(name) ==> name.len() > 0 ==> name[0] != '/',
{
    let end = crate::path::component_end(path, path.len() as int);
    if crate::path::file_name_of(path) is Some {
        lemma_end_within(path, path.len() as int);
        lemma_run_back(path.take(end), other_than('/'));
        let start = crate::path::piece_start(path, end);
        if start < end {
            assert(path.take(end)[start] == path[start]);
            assert(other_than('/')(path.take(end)[start]));
            assert(path.subrange(start, end)[0] == path[start]);
        }
    }
}

proof fn lemma_end_within(path: Seq<char>, end: int)
    requires
        0 <= end <= path.len(),
    ensures
        0 <= crate::path::component_end(path, end) <= end,
    decreases end,
{
    if end > 0 {
        if path[end - 1] == '/' {
            lemma_end_within(path, end - 1);
        } else {
            let start = crate::path::piece_start(path, end);
            lemma_run_back(path.take(end), other_than('/'));
            if 0 < start < end {
                lemma_end_within(path, start);
            }
        }
    }
}

/// What follows from an error: one that a reboot heals is answered with a reboot, a resize or a
/// reset that failed does not keep the device from booting, and after any other the device
/// reboots while an update is pending, so that it is rolled back, or else halts; an image for
/// development opens a shell in place of halting.
pub proof fn law_recovery(e: InitErrorView, release: bool, pending: bool)
    ensures
        ({
            let reboots = match e {
                InitramfsError::Filesystem(FilesystemError::FsckRequiresReboot { .. }) => true,
                InitramfsError::ResizeData(
                    ResizeDataError::Filesystem(FilesystemError::FsckRequiresReboot { .. }),
                ) => true,
                InitramfsError::ExtraBootArgsUpdated => true,
                _ => false,
            };
            policy(e.class(), release, pending) == if reboots {
                Action::Reboot
            } else if e is ResizeData || e is FactoryReset {
                Action::Continue
            } else if pending {
                Action::Reboot
            } else if release {
                Action::Halt
            } else {
                Action::Shell
            }
        }),
{
}

/// The numbers under which the outcome of a reset is reported.
pub proof fn law_reset_numbers(code: FactoryResetStatusCode)
    ensures
        code.number() == match code {
            FactoryResetStatusCode::Success => 0i128,
            FactoryResetStatusCode::Invalid => 1i128,
            FactoryResetStatusCode::Error => 2i128,
            FactoryResetStatusCode::ConfigError => 3i128,
            FactoryResetStatusCode::Warning => 4i128,
        },
{
}

/// A failure of a reset is stored as the name of the partition, a colon, and at most 128 bytes of
/// the reason.
pub proof fn law_failure_text(partition: PartitionName, reason: Seq<char>)
    ensures
        failure_text(partition, reason) == name_of(partition) + ":"@ + truncated(reason, 128),
{
}

} // verus!
