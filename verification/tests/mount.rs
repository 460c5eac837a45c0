//! Mount plans, mount identifiers and the mount registry.
use composefs_sync::mount::{
    composefs_fsmount, erofs_mount, overlay_fsmount, Lower, MountOptions, MountStep, Step,
    StepFailure, VerityRequirement,
};
use composefs_sync::mountid::{
    check_statmount, extract_string, extract_string_array, listmount, parse_statmount, statmount,
    statx_mnt_id_unique, statx_request, ByteOrder, ListState, OvlLayersInfo, StatmountResult, StatmountStep,
    SyscallFailure, LSMT_ROOT, STATMOUNT_FS_TYPE, STATMOUNT_MNT_POINT, STATMOUNT_OPT_ARRAY,
    STATMOUNT_SB_SOURCE,
};
use composefs_sync::mountregistry::{
    active_mounts, active_mounts_mask, mount_source, try_reuse, ReuseAction, ReuseReply,
    ReuseSearch,
};

fn show(plan: &[Step<'_, i32, char>]) -> Vec<String> {
    plan.iter()
        .map(|step| match step {
            MountStep::Open { filesystem } => format!("open {filesystem}"),
            MountStep::SetFlag { key } => format!("flag {key}"),
            MountStep::SetString { key, value, optional } => {
                format!("{key}={value}{}", if *optional { "?" } else { "" })
            }
            MountStep::Mount { read_only } => format!("mount ro={read_only}"),
            MountStep::MakeErofsMountable => format!("mountable"),
            MountStep::MountErofs => format!("erofs"),
            MountStep::ApplyIdmap { userns } => format!("idmap {userns}"),
            MountStep::PrepareErofs => format!("prepare"),
            MountStep::SetSourceToImage => format!("source"),
            MountStep::SetUpperdir { dir } => format!("upperdir {dir}"),
            MountStep::SetWorkdir { dir } => format!("workdir {dir}"),
            MountStep::SetLowerAndData { lower, data } => match lower {
                Lower::Given(fd) => format!("lower {fd} {data:?}"),
                Lower::Erofs => format!("lower erofs {data:?}"),
            },
            MountStep::Create => format!("create"),
        })
        .collect()
}

#[test]
fn erofs_plan() {
    assert_eq!(
        show(&erofs_mount()),
        vec!["mountable", "open erofs", "flag ro", "source", "create", "mount ro=false"]
    );
}

#[test]
fn overlay_plan() {
    let options: MountOptions<i32> = MountOptions::default();
    assert_eq!(
        show(&overlay_fsmount('l', "img", &['a', 'b'], VerityRequirement::default(), &options)),
        vec![
            "open overlay",
            "source=composefs:img",
            "metacopy=on",
            "redirect_dir=on",
            "lower l ['a', 'b']",
            "create",
            "mount ro=true",
        ]
    );
    let mut options = MountOptions::default();
    options.set_overlay(3, 4).set_read_write(true).set_idmap(5);
    assert!(options.has_overlay());
    assert!(options.read_write());
    assert_eq!(options.overlay(), Some(&(3, 4)));
    assert_eq!(options.apply_idmap(), Some(&5));
    assert_eq!(
        show(&composefs_fsmount("img", &['a'], VerityRequirement::Try, &options)),
        vec![
            "erofs",
            "idmap 5",
            "prepare",
            "open overlay",
            "source=composefs:img",
            "metacopy=on",
            "redirect_dir=on",
            "verity=require?",
            "upperdir 3",
            "workdir 4",
            "lower erofs ['a']",
            "create",
            "mount ro=false",
        ]
    );
    assert_eq!(options.into_overlay(), Some((3, 4)));
}

#[test]
fn only_tried_verity_may_be_missing() {
    let options: MountOptions<i32> = MountOptions::default();
    let failures = [
        StepFailure::InvalidArgument,
        StepFailure::NotImplemented,
        StepFailure::Other,
    ];
    for verity in [
        VerityRequirement::Disabled,
        VerityRequirement::Required,
        VerityRequirement::Try,
    ] {
        for step in composefs_fsmount("img", &['a'], verity, &options) {
            assert!(step.may_continue(None));
            for failure in failures {
                let tolerated = verity == VerityRequirement::Try
                    && matches!(&step, MountStep::SetString { key, .. } if key == "verity")
                    && failure != StepFailure::Other;
                assert_eq!(step.may_continue(Some(failure)), tolerated, "{step:?}");
            }
        }
    }
    let required = show(&composefs_fsmount("img", &['a'], VerityRequirement::Required, &options));
    assert!(required.contains(&"verity=require".to_string()));
}

#[test]
fn unique_mount_ids() {
    let req = statx_request(true);
    assert_eq!((req.empty_path, req.mask), (true, 0x4000));
    assert!(!statx_request(false).empty_path);
    assert_eq!(statx_mnt_id_unique(Ok((0x4fff, 17))), Ok(17));
    assert_eq!(
        statx_mnt_id_unique(Ok((0x0fff, 17))),
        Err(SyscallFailure::Unsupported)
    );
    assert_eq!(
        statx_mnt_id_unique(Err(SyscallFailure::Other(2))),
        Err(SyscallFailure::Other(2))
    );
}

#[test]
fn mounts_are_listed_page_by_page() {
    let table: Vec<u64> = (1..=1300).map(|i| i * 3).collect();
    let mut lister = listmount(LSMT_ROOT);
    let mut calls = 0;
    loop {
        let req = lister.request();
        assert_eq!((req.size, req.spare, req.mnt_id), (24, 0, LSMT_ROOT));
        let page: Vec<u64> = table
            .iter()
            .copied()
            .filter(|id| *id > req.param)
            .take(512)
            .collect();
        calls += 1;
        if lister.resume(Ok(page)) != ListState::More {
            break;
        }
    }
    assert_eq!(calls, 3);
    assert_eq!(lister.into_ids(), Ok(table));

    let mut failing = listmount(5);
    assert_eq!(
        failing.resume(Err(SyscallFailure::Other(1))),
        ListState::Failed(SyscallFailure::Other(1))
    );
    assert_eq!(failing.into_ids(), Err(SyscallFailure::Other(1)));
}

#[test]
fn statmount_retries_once() {
    let mut call = statmount(9, STATMOUNT_FS_TYPE);
    let req = call.request();
    assert_eq!((req.mnt_id, req.param), (9, STATMOUNT_FS_TYPE));
    assert_eq!(call.buf_size(), 4096);
    assert_eq!(call.resume(Err(SyscallFailure::Overflow)), StatmountStep::Retry);
    assert_eq!(call.buf_size(), 65536);
    assert_eq!(
        call.resume(Err(SyscallFailure::Overflow)),
        StatmountStep::Fail(SyscallFailure::Overflow)
    );
    let mut call = statmount(9, 0);
    assert_eq!(
        call.resume(Err(SyscallFailure::Other(22))),
        StatmountStep::Fail(SyscallFailure::Other(22))
    );
    let mut call = statmount(9, 0);
    assert_eq!(call.resume(Ok(())), StatmountStep::Parse);
}

fn reply(order: ByteOrder, mask: u64) -> Vec<u8> {
    let u32b = |v: u32| match order {
        ByteOrder::Little => v.to_le_bytes(),
        ByteOrder::Big => v.to_be_bytes(),
    };
    let u64b = |v: u64| match order {
        ByteOrder::Little => v.to_le_bytes(),
        ByteOrder::Big => v.to_be_bytes(),
    };
    let mut buf = vec![0u8; 512];
    buf[8..16].copy_from_slice(&u64b(mask));
    buf[36..40].copy_from_slice(&u32b(1));
    buf[40..48].copy_from_slice(&u64b(0x0102030405060708));
    buf[108..112].copy_from_slice(&u32b(9));
    buf[124..128].copy_from_slice(&u32b(14));
    buf[128..132].copy_from_slice(&u32b(2));
    buf[132..136].copy_from_slice(&u32b(30));
    buf.extend_from_slice(b"\0overlay\0/mnt\0composefs:image\0ro\0x=\xff\0");
    buf
}

#[test]
fn statmount_replies_are_read() {
    let all = STATMOUNT_FS_TYPE | STATMOUNT_SB_SOURCE | STATMOUNT_MNT_POINT | STATMOUNT_OPT_ARRAY;
    for order in [ByteOrder::Little, ByteOrder::Big] {
        let buf = reply(order, all);
        assert!(check_statmount(&buf, order));
        let result = parse_statmount(&buf, order);
        assert_eq!(result.mnt_id, 0x0102030405060708);
        assert_eq!(result.fs_type.as_deref(), Some("overlay"));
        assert_eq!(result.mnt_point.as_deref(), Some("/mnt"));
        assert_eq!(result.sb_source.as_deref(), Some("composefs:image"));
        assert_eq!(
            result.opt_array,
            Some(vec!["ro".to_string(), "x=\u{fffd}".to_string()])
        );

        let nothing = parse_statmount(&reply(order, 0), order);
        assert_eq!(nothing.fs_type, None);
        assert_eq!(nothing.opt_array, None);
    }
    assert!(!check_statmount(&[0; 511], ByteOrder::Little));
    let mut far = reply(ByteOrder::Little, STATMOUNT_FS_TYPE);
    far[36..40].copy_from_slice(&u32::MAX.to_le_bytes());
    assert!(!check_statmount(&far, ByteOrder::Little));
    far[36..40].copy_from_slice(&100_000u32.to_le_bytes());
    assert!(check_statmount(&far, ByteOrder::Little));
    assert_eq!(parse_statmount(&far, ByteOrder::Little).fs_type, None);
}

#[test]
fn strings_of_a_buffer() {
    let buf = b"abc\0de\0f";
    assert_eq!(extract_string(buf, 0), None);
    assert_eq!(extract_string(buf, 8), None);
    assert_eq!(extract_string(buf, 1).as_deref(), Some("bc"));
    assert_eq!(extract_string(buf, 7).as_deref(), Some("f"));
    assert_eq!(extract_string_array(buf, 0, 2), vec!["abc", "de"]);
    assert_eq!(extract_string_array(buf, 4, 9), vec!["de", "f"]);
    assert!(extract_string_array(buf, 8, 1).is_empty());
}

fn mount(fs_type: &str, source: &str, mount_point: Option<&str>) -> StatmountResult {
    let mut result = StatmountResult::default();
    result.fs_type = Some(fs_type.to_string());
    result.sb_source = Some(source.to_string());
    result.mnt_point = mount_point.map(|m| m.to_string());
    result
}

#[test]
fn active_images() {
    assert_eq!(active_mounts_mask(), STATMOUNT_FS_TYPE | STATMOUNT_SB_SOURCE);
    assert_eq!(mount_source("a"), "composefs:a");
    assert!(active_mounts(&None).is_empty());
    let scan = vec![
        Some(mount("overlay", "composefs:a", None)),
        None,
        Some(mount("ext4", "composefs:b", None)),
        Some(mount("overlay", "other:c", None)),
        Some(mount("overlay", "composefs:d", None)),
        Some(mount("overlay", "composefs:a", None)),
    ];
    let mut names = active_mounts(&Some(scan));
    names.sort();
    assert_eq!(names, vec!["a", "d"]);
}

/// A mount namespace: composefs mounts by ID, with the digests of their lower
/// layers, and what is at the mount points right now.
struct Namespace {
    mounts: Vec<(u64, &'static str, Vec<Option<Vec<u8>>>)>,
    at: Vec<(&'static str, u64)>,
    /// Once the first mount point was opened, this mount takes its place.
    intruder: Option<u64>,
    /// The mount that is held on to.
    held: Option<u64>,
}

impl Namespace {
    fn digests(&self, id: u64) -> &Vec<Option<Vec<u8>>> {
        &self.mounts.iter().find(|m| m.0 == id).unwrap().2
    }

    fn answer(&mut self, action: ReuseAction<String>) -> ReuseReply {
        match action {
            ReuseAction::ListMounts => {
                ReuseReply::Mounts(Some(self.mounts.iter().map(|m| m.0).collect()))
            }
            ReuseAction::Stat { mnt_id, mask } => {
                assert_eq!(
                    mask,
                    STATMOUNT_FS_TYPE | STATMOUNT_SB_SOURCE | STATMOUNT_MNT_POINT
                );
                let m = self.mounts.iter().find(|m| m.0 == mnt_id).unwrap();
                ReuseReply::Stat(match m.1 {
                    "" => None,
                    point => Some(mount("overlay", "composefs:img", Some(point))),
                })
            }
            ReuseAction::Identify { path } => {
                self.held = self.at.iter().find(|m| m.0 == path).map(|m| m.1);
                if let Some(id) = self.intruder {
                    if path == self.at[0].0 {
                        self.at[0].1 = id;
                    }
                }
                ReuseReply::MountId(self.held)
            }
            ReuseAction::CountLayers { mnt_id } => {
                assert_eq!(self.held, Some(mnt_id));
                ReuseReply::Layers(Some(OvlLayersInfo {
                    numlower: self.digests(mnt_id).len() as u32,
                    numlowerdata: 1,
                    has_upper: 0,
                }))
            }
            ReuseAction::OpenLayer { mnt_id, .. } => {
                assert_eq!(self.held, Some(mnt_id));
                ReuseReply::LayerOpened(true)
            }
            ReuseAction::MeasureLayer { mnt_id, layer } => {
                assert_eq!(self.held, Some(mnt_id));
                ReuseReply::Digest(self.digests(mnt_id)[layer - 1].clone())
            }
            ReuseAction::Reuse { .. } | ReuseAction::GiveUp => unreachable!(),
        }
    }

    fn search(&mut self, image: &str, expected: Vec<u8>) -> Option<(u64, usize)> {
        let mut search: ReuseSearch = try_reuse(image, &expected);
        loop {
            match search.action() {
                ReuseAction::Reuse { mnt_id, layer } => {
                    assert_eq!(self.held, Some(mnt_id));
                    return Some((mnt_id, layer));
                }
                ReuseAction::GiveUp => return None,
                action => {
                    let reply = self.answer(action);
                    search = search.resume(reply);
                }
            }
        }
    }
}

/// Mount 5 cannot be looked at, mount 6 is hidden by another one, and the second
/// lower layer of mount 7 is the image.
fn namespace() -> Namespace {
    Namespace {
        mounts: vec![
            (5, "", vec![]),
            (6, "/hidden", vec![Some(vec![1, 2, 3])]),
            (7, "m", vec![None, Some(vec![1, 2, 3])]),
        ],
        at: vec![("/m", 7), ("/hidden", 99)],
        intruder: None,
        held: None,
    }
}

#[test]
fn reuse_needs_the_right_digest() {
    assert_eq!(namespace().search("img", vec![1, 2, 3]), Some((7, 2)));
    assert_eq!(namespace().search("img", vec![1, 2, 4]), None);
    assert_eq!(namespace().search("other", vec![1, 2, 3]), None);
    let mut bare = namespace();
    bare.mounts[2].2.clear();
    assert_eq!(bare.search("img", vec![1, 2, 3]), None);
    let failed = try_reuse("img", &vec![1]).resume(ReuseReply::Mounts(None));
    assert!(matches!(failed.action(), ReuseAction::GiveUp));
}

#[test]
fn reuse_is_not_fooled_by_a_mount_that_takes_over_the_path() {
    // Mount 8 is not listed, has the wanted digest, and is mounted over mount 7 as
    // soon as that was opened. Its layers are not looked at.
    let mut ns = namespace();
    ns.mounts[2].2 = vec![Some(vec![9])];
    ns.intruder = Some(8);
    assert_eq!(ns.search("img", vec![1, 2, 3]), None);
    assert_eq!(ns.at[0], ("/m", 8));
    // The layers of mount 7 itself can still be reused.
    let mut ns = namespace();
    ns.intruder = Some(8);
    assert_eq!(ns.search("img", vec![1, 2, 3]), Some((7, 2)));
}
