//! The runtime integration and the switch of roots, run again

use vstd::prelude::*;

use crate::bootloader::session_env::{BootloaderKind, SessionEnv};
use crate::error::{io_step, InitErrorView};
use crate::path::joined;
use crate::replay::bootloader::replay_env_reads;
use crate::replay::steps::{replay_io_step, replay_warned};
use crate::replay::{group_extends, group_replay, replayable};
use crate::runtime::fs_link::{
    all_loaded, config_loaded, configured_links_created, directory_loaded, files_loaded, link_created, links_created,
    parent_made, way_cleared, way_removed, LinkView,
};
use crate::runtime::omnect_device_service::{
    created, gid_looked_up, handed_over, looked_up, marked, owned, permitted, status_created, status_written,
    uid_looked_up, update_marked, validated, FilePermission,
};
use crate::runtime::status::OdsView;
use crate::runtime::switch_root::{
    critical_mounts, critical_moved, fallback_found, handed_to_init, in_root, init_found, init_paths, mount_moved,
    mount_points_made, moved_over, or_undone, rollback_warning, rolled_back, root_moved, switched, undone,
};
use crate::system::{warned, RequestView, Transcript};

verus! {

pub broadcast proof fn replay_config_loaded(t: Transcript, path: Seq<char>)
    ensures
        #![trigger config_loaded(t, path)]
        replayable(t, |u: Transcript| config_loaded(u, path)),
{
    broadcast use group_replay;

}

pub broadcast proof fn replay_files_loaded(
    t: Transcript,
    links: Seq<LinkView>,
    dir: Seq<char>,
    names: Seq<Seq<char>>,
    i: int,
)
    ensures
        #![trigger files_loaded(t, links, dir, names, i)]
        replayable(t, |u: Transcript| files_loaded(u, links, dir, names, i)),
    decreases names.len() - i,
{
    broadcast use {group_extends, replay_config_loaded};

    if 0 <= i < names.len() {
        let path = joined(dir, names[i]);
        assert forall|u: Transcript|
            #![trigger config_loaded(u, path)]
            {
                let x = config_loaded(u, path);
                replayable(x.0, |v: Transcript| files_loaded(v, links + x.1->Ok_0, dir, names, i + 1))
            } by {
            let x = config_loaded(u, path);
            replay_files_loaded(x.0, links + x.1->Ok_0, dir, names, i + 1);
        }
    }
}

pub broadcast proof fn replay_directory_loaded(t: Transcript, links: Seq<LinkView>, rootfs: Seq<char>)
    ensures
        #![trigger directory_loaded(t, links, rootfs)]
        replayable(t, |u: Transcript| directory_loaded(u, links, rootfs)),
{
    broadcast use {group_replay, replay_files_loaded};

}

pub broadcast proof fn replay_all_loaded(t: Transcript, rootfs: Seq<char>)
    ensures
        #![trigger all_loaded(t, rootfs)]
        replayable(t, |u: Transcript| all_loaded(u, rootfs)),
{
    broadcast use {group_replay, replay_directory_loaded, replay_config_loaded};

}

pub broadcast proof fn replay_parent_made(t: Transcript, path: Seq<char>)
    ensures
        #![trigger parent_made(t, path)]
        replayable(t, |u: Transcript| parent_made(u, path)),
{
    broadcast use group_replay;

}

pub broadcast proof fn replay_way_removed(t: Transcript, path: Seq<char>)
    ensures
        #![trigger way_removed(t, path)]
        replayable(t, |u: Transcript| way_removed(u, path)),
{
    broadcast use {group_extends, replay_io_step};

}

pub broadcast proof fn replay_way_cleared(t: Transcript, path: Seq<char>)
    ensures
        #![trigger way_cleared(t, path)]
        replayable(t, |u: Transcript| way_cleared(u, path)),
{
    broadcast use {group_replay, replay_way_removed};

}

pub broadcast proof fn replay_link_created(t: Transcript, rootfs: Seq<char>, entry: LinkView)
    ensures
        #![trigger link_created(t, rootfs, entry)]
        replayable(t, |u: Transcript| link_created(u, rootfs, entry)),
{
    broadcast use {group_extends, replay_parent_made, replay_way_cleared, replay_io_step};

}

pub broadcast proof fn replay_links_created(t: Transcript, rootfs: Seq<char>, links: Seq<LinkView>, i: int)
    ensures
        #![trigger links_created(t, rootfs, links, i)]
        replayable(t, |u: Transcript| links_created(u, rootfs, links, i)),
    decreases links.len() - i,
{
    broadcast use {group_extends, replay_link_created};

    if 0 <= i < links.len() {
        let entry = links[i];
        assert forall|u: Transcript|
            #![trigger link_created(u, rootfs, entry)]
            replayable(link_created(u, rootfs, entry).0, |v: Transcript| links_created(v, rootfs, links, i + 1)) by {
            replay_links_created(link_created(u, rootfs, entry).0, rootfs, links, i + 1);
        }
    }
}

pub broadcast proof fn replay_configured_links_created(t: Transcript, rootfs: Seq<char>)
    ensures
        #![trigger configured_links_created(t, rootfs)]
        replayable(t, |u: Transcript| configured_links_created(u, rootfs)),
{
    broadcast use {group_extends, replay_all_loaded, replay_links_created};

}

pub broadcast proof fn replay_looked_up(
    t: Transcript,
    rootfs: Seq<char>,
    file: Seq<char>,
    name: Seq<char>,
    kind: Seq<char>,
    id: Seq<char>,
)
    ensures
        #![trigger looked_up(t, rootfs, file, name, kind, id)]
        replayable(t, |u: Transcript| looked_up(u, rootfs, file, name, kind, id)),
{
    broadcast use group_replay;

}

pub broadcast proof fn replay_uid_looked_up(t: Transcript, rootfs: Seq<char>, user: Seq<char>)
    ensures
        #![trigger uid_looked_up(t, rootfs, user)]
        replayable(t, |u: Transcript| uid_looked_up(u, rootfs, user)),
{
    broadcast use {group_extends, replay_looked_up};

}

pub broadcast proof fn replay_gid_looked_up(t: Transcript, rootfs: Seq<char>, group: Seq<char>)
    ensures
        #![trigger gid_looked_up(t, rootfs, group)]
        replayable(t, |u: Transcript| gid_looked_up(u, rootfs, group)),
{
    broadcast use {group_extends, replay_looked_up};

}

pub broadcast proof fn replay_owned(t: Transcript, path: Seq<char>, uid: u32, gid: u32)
    ensures
        #![trigger owned(t, path, uid, gid)]
        replayable(t, |u: Transcript| owned(u, path, uid, gid)),
{
    broadcast use {group_extends, replay_io_step};

}

pub broadcast proof fn replay_permitted(t: Transcript, path: Seq<char>, permission: FilePermission)
    ensures
        #![trigger permitted(t, path, permission)]
        replayable(t, |u: Transcript| permitted(u, path, permission)),
{
    broadcast use {group_extends, replay_io_step};

}

pub broadcast proof fn replay_handed_over(
    t: Transcript,
    path: Seq<char>,
    uid: u32,
    gid: u32,
    permission: FilePermission,
)
    ensures
        #![trigger handed_over(t, path, uid, gid, permission)]
        replayable(t, |u: Transcript| handed_over(u, path, uid, gid, permission)),
{
    broadcast use {group_extends, replay_owned, replay_permitted};

}

pub broadcast proof fn replay_status_written(t: Transcript, dir: Seq<char>, status: OdsView)
    ensures
        #![trigger status_written(t, dir, status)]
        replayable(t, |u: Transcript| status_written(u, dir, status)),
{
    broadcast use {group_extends, replay_io_step};

}

pub broadcast proof fn replay_status_created(t: Transcript, status: OdsView, dir: Seq<char>, uid: u32, gid: u32)
    ensures
        #![trigger status_created(t, status, dir, uid, gid)]
        replayable(t, |u: Transcript| status_created(u, status, dir, uid, gid)),
{
    broadcast use {group_extends, replay_io_step, replay_handed_over, replay_status_written};

}

pub broadcast proof fn replay_marked(t: Transcript, path: Seq<char>, uid: u32, gid: u32, permission: FilePermission)
    ensures
        #![trigger marked(t, path, uid, gid, permission)]
        replayable(t, |u: Transcript| marked(u, path, uid, gid, permission)),
{
    broadcast use {group_extends, replay_io_step, replay_handed_over};

}

pub broadcast proof fn replay_update_marked(t: Transcript, s: BootloaderKind, dir: Seq<char>, uid: u32, gid: u32)
    ensures
        #![trigger update_marked::<SessionEnv>(t, s, dir, uid, gid)]
        replayable(t, |u: Transcript| update_marked::<SessionEnv>(u, s, dir, uid, gid)),
{
    broadcast use {group_extends, replay_env_reads, replay_marked};

}

pub broadcast proof fn replay_validated(t: Transcript, s: BootloaderKind, dir: Seq<char>, uid: u32, gid: u32)
    ensures
        #![trigger validated::<SessionEnv>(t, s, dir, uid, gid)]
        replayable(t, |u: Transcript| validated::<SessionEnv>(u, s, dir, uid, gid)),
{
    broadcast use {group_extends, replay_env_reads, replay_update_marked, replay_marked};

}

pub broadcast proof fn replay_created(
    t: Transcript,
    s: Option<BootloaderKind>,
    status: OdsView,
    rootfs: Seq<char>,
    dir: Seq<char>,
)
    ensures
        #![trigger created::<SessionEnv>(t, s, status, rootfs, dir)]
        replayable(t, |u: Transcript| created::<SessionEnv>(u, s, status, rootfs, dir)),
{
    broadcast use {
        group_extends,
        replay_uid_looked_up,
        replay_gid_looked_up,
        replay_status_created,
        replay_validated,
        replay_warned,
    };

}

pub broadcast proof fn replay_fallback_found(t: Transcript, root: Seq<char>, requested: Seq<char>, i: int)
    ensures
        #![trigger fallback_found(t, root, requested, i)]
        replayable(t, |u: Transcript| fallback_found(u, root, requested, i)),
    decreases 4 - i,
{
    broadcast use group_replay;

    if 0 <= i < 4 {
        let request = RequestView::IsExecutable(in_root(root, init_paths()[i]));
        assert forall|u: Transcript|
            #![trigger u.ask(request)]
            replayable(u.ask(request), |v: Transcript| fallback_found(v, root, requested, i + 1)) by {
            replay_fallback_found(u.ask(request), root, requested, i + 1);
        }
    }
}

pub broadcast proof fn replay_init_found(t: Transcript, root: Seq<char>, requested: Seq<char>)
    ensures
        #![trigger init_found(t, root, requested)]
        replayable(t, |u: Transcript| init_found(u, root, requested)),
{
    broadcast use {group_replay, replay_fallback_found};

}

pub broadcast proof fn replay_mount_points_made(t: Transcript, root: Seq<char>, i: int)
    ensures
        #![trigger mount_points_made(t, root, i)]
        replayable(t, |u: Transcript| mount_points_made(u, root, i)),
    decreases 4 - i,
{
    broadcast use {group_extends, replay_io_step};

    if 0 <= i < 4 {
        let name = critical_mounts()[i];
        let request = RequestView::CreateDir(joined(root, name));
        let context = "Failed to create mountpoint "@ + root + "/"@ + name + ": "@;
        assert forall|u: Transcript|
            #![trigger io_step(u, request, context)]
            replayable(io_step(u, request, context).0, |v: Transcript| mount_points_made(v, root, i + 1)) by {
            replay_mount_points_made(io_step(u, request, context).0, root, i + 1);
        }
    }
}

pub broadcast proof fn replay_mount_moved(t: Transcript, source: Seq<char>, target: Seq<char>)
    ensures
        #![trigger mount_moved(t, source, target)]
        replayable(t, |u: Transcript| mount_moved(u, source, target)),
{
    broadcast use {group_extends, replay_io_step};

}

pub broadcast proof fn replay_rolled_back(t: Transcript, root: Seq<char>, k: int)
    ensures
        #![trigger rolled_back(t, root, k)]
        replayable(t, |u: Transcript| rolled_back(u, root, k)),
    decreases k,
{
    broadcast use {group_extends, replay_mount_moved, replay_warned};

    if k > 0 {
        let name = critical_mounts()[k - 1];
        let source = joined(root, name);
        let target = "/"@ + name;
        assert forall|u: Transcript|
            #![trigger mount_moved(u, source, target)]
            {
                let x = mount_moved(u, source, target);
                let y = warned(x.0, rollback_warning(name, x.1->Err_0->Failed_0));
                &&& replayable(x.0, |v: Transcript| rolled_back(v, root, k - 1))
                &&& replayable(y.0, |v: Transcript| rolled_back(v, root, k - 1))
            } by {
            let x = mount_moved(u, source, target);
            let y = warned(x.0, rollback_warning(name, x.1->Err_0->Failed_0));
            replay_rolled_back(x.0, root, k - 1);
            replay_rolled_back(y.0, root, k - 1);
        }
    }
}

pub broadcast proof fn replay_undone(t: Transcript, root: Seq<char>, k: int, e: InitErrorView)
    ensures
        #![trigger undone(t, root, k, e)]
        replayable(t, |u: Transcript| undone(u, root, k, e)),
{
    broadcast use {group_extends, replay_rolled_back};

}

pub broadcast proof fn replay_critical_moved(t: Transcript, root: Seq<char>, i: int)
    ensures
        #![trigger critical_moved(t, root, i)]
        replayable(t, |u: Transcript| critical_moved(u, root, i)),
    decreases 4 - i,
{
    broadcast use {group_extends, replay_undone, replay_mount_moved};

    if 0 <= i < 4 {
        let name = critical_mounts()[i];
        let source = "/"@ + name;
        let target = joined(root, name);
        assert forall|u: Transcript|
            #![trigger mount_moved(u, source, target)]
            {
                let x = or_undone(mount_moved(u, source, target), root, i);
                replayable(x.0, |v: Transcript| critical_moved(v, root, i + 1))
            } by {
            let x = or_undone(mount_moved(u, source, target), root, i);
            replay_critical_moved(x.0, root, i + 1);
        }
    }
}

pub broadcast proof fn replay_root_moved(t: Transcript, root: Seq<char>)
    ensures
        #![trigger root_moved(t, root)]
        replayable(t, |u: Transcript| root_moved(u, root)),
{
    broadcast use {group_extends, replay_undone, replay_io_step};

}

pub broadcast proof fn replay_handed_to_init(t: Transcript, init: Seq<char>)
    ensures
        #![trigger handed_to_init(t, init)]
        replayable(t, |u: Transcript| handed_to_init(u, init)),
{
    broadcast use {group_replay, replay_io_step};

}

pub broadcast proof fn replay_moved_over(t: Transcript, root: Seq<char>, init: Seq<char>)
    ensures
        #![trigger moved_over(t, root, init)]
        replayable(t, |u: Transcript| moved_over(u, root, init)),
{
    broadcast use {
        group_extends,
        replay_mount_points_made,
        replay_critical_moved,
        replay_root_moved,
        replay_handed_to_init,
    };

}

pub broadcast proof fn replay_switched(t: Transcript, root: Seq<char>, init: Option<Seq<char>>)
    ensures
        #![trigger switched(t, root, init)]
        replayable(t, |u: Transcript| switched(u, root, init)),
{
    broadcast use {group_replay, replay_init_found, replay_moved_over};

}

} // verus!
