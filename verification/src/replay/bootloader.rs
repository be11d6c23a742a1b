//! The boot environment, run again

use vstd::prelude::*;

use crate::bootloader::grub::{cleared, edited, filed, opened, record_of, synced};
use crate::bootloader::session_env::{env_opened, BootloaderKind, SessionEnv};
use crate::bootloader::types::{decoded, encoded};
use crate::bootloader::uboot::put;
use crate::bootloader::{grub, noted, uboot, BootEnv, BootEnvKey};
use crate::filesystem::fsck_code::FsckExitCode;
use crate::partition::layout::PartitionName;
use crate::replay::{group_extends, group_replay, replayable};
use crate::replay::steps::replay_warned;
use crate::system::Transcript;

verus! {

pub broadcast proof fn replay_opened(t: Transcript)
    ensures
        #![trigger opened(t)]
        replayable(t, |u: Transcript| opened(u)),
{
    broadcast use group_replay;

}

pub broadcast proof fn replay_grub_got(t: Transcript, key: BootEnvKey)
    ensures
        #![trigger grub::got(t, key)]
        replayable(t, |u: Transcript| grub::got(u, key)),
{
    broadcast use group_replay;

}

pub broadcast proof fn replay_synced(t: Transcript)
    ensures
        #![trigger synced(t)]
        replayable(t, |u: Transcript| synced(u)),
{
    broadcast use group_replay;

}

pub broadcast proof fn replay_edited(t: Transcript, key: BootEnvKey, value: Option<Seq<char>>)
    ensures
        #![trigger edited(t, key, value)]
        replayable(t, |u: Transcript| edited(u, key, value)),
{
    broadcast use {group_replay, replay_synced};

}

pub broadcast proof fn replay_filed(t: Transcript, partition: PartitionName, text: Seq<char>)
    ensures
        #![trigger filed(t, partition, text)]
        replayable(t, |u: Transcript| filed(u, partition, text)),
{
    broadcast use {group_replay, replay_synced};

}

pub broadcast proof fn replay_encoded(t: Transcript, code: int, output: Seq<char>)
    ensures
        #![trigger encoded(t, code, output)]
        replayable(t, |u: Transcript| encoded(u, code, output)),
{
    broadcast use group_replay;

}

pub broadcast proof fn replay_grub_saved(t: Transcript, partition: PartitionName, code: FsckExitCode, output: Seq<char>)
    ensures
        #![trigger grub::saved(t, partition, code, output)]
        replayable(t, |u: Transcript| grub::saved(u, partition, code, output)),
{
    broadcast use {group_extends, replay_encoded, replay_filed, replay_edited};

}

pub broadcast proof fn replay_decoded(t: Transcript, text: Seq<char>)
    ensures
        #![trigger decoded(t, text)]
        replayable(t, |u: Transcript| decoded(u, text)),
{
    broadcast use group_replay;

}

pub broadcast proof fn replay_record_of(t: Transcript, text: Seq<char>)
    ensures
        #![trigger record_of(t, text)]
        replayable(t, |u: Transcript| record_of(u, text)),
{
    broadcast use {group_extends, replay_decoded};

}

pub broadcast proof fn replay_grub_recalled(t: Transcript, partition: PartitionName)
    ensures
        #![trigger grub::recalled(t, partition)]
        replayable(t, |u: Transcript| grub::recalled(u, partition)),
{
    broadcast use {group_replay, replay_grub_got, replay_record_of};

}

pub broadcast proof fn replay_cleared(t: Transcript, partition: PartitionName)
    ensures
        #![trigger cleared(t, partition)]
        replayable(t, |u: Transcript| cleared(u, partition)),
{
    broadcast use {group_replay, replay_edited, replay_synced};

}

pub broadcast proof fn replay_put(t: Transcript, key: BootEnvKey, value: Option<Seq<char>>)
    ensures
        #![trigger put(t, key, value)]
        replayable(t, |u: Transcript| put(u, key, value)),
{
    broadcast use group_replay;

}

pub broadcast proof fn replay_env_writes(t: Transcript, s: BootloaderKind, key: BootEnvKey, value: Option<Seq<char>>)
    ensures
        #![trigger SessionEnv::writes(t, s, key, value)]
        replayable(t, |u: Transcript| SessionEnv::writes(u, s, key, value)),
{
    broadcast use {group_extends, replay_edited, replay_put};

}

pub broadcast proof fn replay_noted(
    t: Transcript,
    s: Option<BootloaderKind>,
    key: BootEnvKey,
    value: Option<Seq<char>>,
    before: Seq<char>,
    after: Seq<char>,
)
    ensures
        #![trigger noted::<SessionEnv>(t, s, key, value, before, after)]
        replayable(t, |u: Transcript| noted::<SessionEnv>(u, s, key, value, before, after)),
{
    broadcast use {group_extends, replay_env_writes, replay_warned};

}

pub broadcast proof fn replay_env_opened(t: Transcript, kind: BootloaderKind)
    ensures
        #![trigger env_opened(t, kind)]
        replayable(t, |u: Transcript| env_opened(u, kind)),
{
    broadcast use {group_extends, replay_opened};

}

pub broadcast proof fn replay_uboot_got(t: Transcript, key: BootEnvKey)
    ensures
        #![trigger uboot::got(t, key)]
        replayable(t, |u: Transcript| uboot::got(u, key)),
{
    broadcast use group_replay;

}

pub broadcast proof fn replay_env_reads(t: Transcript, s: BootloaderKind, key: BootEnvKey)
    ensures
        #![trigger SessionEnv::reads(t, s, key)]
        replayable(t, |u: Transcript| SessionEnv::reads(u, s, key)),
{
    broadcast use {group_extends, replay_grub_got, replay_uboot_got};

}

pub broadcast proof fn replay_uboot_saved(
    t: Transcript,
    partition: PartitionName,
    code: FsckExitCode,
    output: Seq<char>,
)
    ensures
        #![trigger uboot::saved(t, partition, code, output)]
        replayable(t, |u: Transcript| uboot::saved(u, partition, code, output)),
{
    broadcast use {group_extends, replay_encoded, replay_put};

}

pub broadcast proof fn replay_env_saves(
    t: Transcript,
    s: BootloaderKind,
    partition: PartitionName,
    code: FsckExitCode,
    output: Seq<char>,
)
    ensures
        #![trigger SessionEnv::saves(t, s, partition, code, output)]
        replayable(t, |u: Transcript| SessionEnv::saves(u, s, partition, code, output)),
{
    broadcast use {group_extends, replay_grub_saved, replay_uboot_saved};

}

pub broadcast proof fn replay_uboot_recalled(t: Transcript, partition: PartitionName)
    ensures
        #![trigger uboot::recalled(t, partition)]
        replayable(t, |u: Transcript| uboot::recalled(u, partition)),
{
    broadcast use {group_extends, replay_uboot_got, replay_record_of};

}

pub broadcast proof fn replay_env_recalls(t: Transcript, s: BootloaderKind, partition: PartitionName)
    ensures
        #![trigger SessionEnv::recalls(t, s, partition)]
        replayable(t, |u: Transcript| SessionEnv::recalls(u, s, partition)),
{
    broadcast use {group_extends, replay_grub_recalled, replay_uboot_recalled};

}

pub broadcast proof fn replay_env_clears(t: Transcript, s: BootloaderKind, partition: PartitionName)
    ensures
        #![trigger SessionEnv::clears(t, s, partition)]
        replayable(t, |u: Transcript| SessionEnv::clears(u, s, partition)),
{
    broadcast use {group_extends, replay_cleared, replay_put};

}

} // verus!
