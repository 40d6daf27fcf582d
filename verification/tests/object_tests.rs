use rustux::object::ids::IdAllocator;
use rustux::object::handle::{Rights, ObjectType, KernelObjectBase, Handle, HandleOwner, HandleTable, ObjectRef, MAX_HANDLES};
use rustux::object::channel::{Channel, ChannelState, Message};
use rustux::object::job::{Job, JobPolicy, ResourceLimits, JobStats, JOB_ID_ROOT, JOB_ID_FIRST_CHILD};
use rustux::object::timer::{Timer, TimerState, SlackPolicy};
use rustux::object::vmo::{Vmo, VmoFlags, CachePolicy};

fn r(bits: u32) -> Rights {
    Rights::from_raw(bits)
}

#[test]
fn test_rights_basic() {
    let rights = r(Rights::READ) | r(Rights::WRITE);

    assert!(rights.contains(r(Rights::READ)));
    assert!(rights.contains(r(Rights::WRITE)));
    assert!(!rights.contains(r(Rights::EXECUTE)));

    let combined = rights.add(r(Rights::EXECUTE));
    assert!(combined.contains(r(Rights::EXECUTE)));

    let removed = combined.remove(r(Rights::READ));
    assert!(!removed.contains(r(Rights::READ)));
    assert!(removed.contains(r(Rights::WRITE)));
}

#[test]
fn test_rights_require() {
    let rights = r(Rights::READ) | r(Rights::WRITE);

    assert!(rights.require(r(Rights::READ)).is_ok());
    assert!(rights.require(r(Rights::WRITE)).is_ok());
    assert!(rights.require(r(Rights::EXECUTE)).is_err());
}

#[test]
fn test_object_type() {
    assert_eq!(ObjectType::from_raw(1), ObjectType::Process);
    assert_eq!(ObjectType::from_raw(5), ObjectType::Channel);
    assert_eq!(ObjectType::from_raw(999), ObjectType::Unknown);

    assert_eq!(ObjectType::Process.into_raw(), 1);
    assert_eq!(ObjectType::Channel.name(), "channel");
}

#[test]
fn test_kernel_object_base() {
    let mut obj = KernelObjectBase::new(ObjectType::Vmo);

    assert_eq!(obj.obj_type, ObjectType::Vmo);
    assert_eq!(obj.ref_count(), 1);
    assert!(!obj.is_destroying());

    obj.ref_inc();
    assert_eq!(obj.ref_count(), 2);

    assert!(!obj.ref_dec());
    assert!(obj.ref_dec());
}

#[test]
fn test_handle_basic() {
    let mut ids = IdAllocator::new(1);
    let base = KernelObjectBase::new(ObjectType::Event);
    let handle = Handle::new(
        &mut ids,
        Some(ObjectRef { koid: 7, obj_type: base.obj_type }),
        r(Rights::READ) | r(Rights::WRITE),
    );

    assert!(handle.is_valid());
    assert_eq!(handle.object_type(), ObjectType::Event);
    assert!(handle.has_right(r(Rights::READ)));
}

#[test]
fn test_handle_duplicate() {
    let mut ids = IdAllocator::new(1);
    let mut base = KernelObjectBase::new(ObjectType::Timer);
    let handle = Handle::new(
        &mut ids,
        Some(ObjectRef { koid: 9, obj_type: ObjectType::Timer }),
        r(Rights::DUPLICATE) | r(Rights::READ),
    );
    let dup = handle.duplicate(&mut ids, &mut base).unwrap();

    assert!(dup.is_valid());
    assert_eq!(base.ref_count(), 2);
}

#[test]
fn test_handle_table() {
    let mut ids = IdAllocator::new(1);
    let mut table = HandleTable::new();
    assert_eq!(table.count(), 0);
    assert!(!table.is_full());

    let mut base = KernelObjectBase::new(ObjectType::Job);
    let handle = Handle::new(&mut ids, Some(ObjectRef { koid: 3, obj_type: ObjectType::Job }), r(Rights::MANAGE));

    let handle_val = table.add(handle).unwrap();
    assert_eq!(table.count(), 1);
    assert_eq!(handle_val, 0);

    let retrieved = table.get(handle_val).unwrap();
    assert_eq!(retrieved.object_type(), ObjectType::Job);

    table.remove(handle_val, &mut base).unwrap();
    assert_eq!(table.count(), 0);
}

#[test]
fn test_handle_table_duplicate() {
    let mut ids = IdAllocator::new(1);
    let mut table = HandleTable::new();

    let mut base = KernelObjectBase::new(ObjectType::Vmo);
    let handle = Handle::new(&mut ids, Some(ObjectRef { koid: 4, obj_type: ObjectType::Vmo }), r(Rights::DUPLICATE) | r(Rights::READ));
    let handle_val = table.add(handle).unwrap();

    let dup_val = table.duplicate(handle_val, r(Rights::SAME_RIGHTS), &mut ids, &mut base).unwrap();
    assert_ne!(handle_val, dup_val);
    assert_eq!(table.count(), 2);
    assert_eq!(base.ref_count(), 2);
}

#[test]
fn handle_table_fills_up_and_reports_full() {
    let mut ids = IdAllocator::new(1);
    let mut table = HandleTable::new();
    for i in 0..MAX_HANDLES {
        let h = Handle::new(&mut ids, Some(ObjectRef { koid: 1, obj_type: ObjectType::Port }), r(Rights::READ));
        assert_eq!(table.add(h).unwrap(), i as u32);
    }
    assert!(table.is_full());
    let h = Handle::new(&mut ids, None, r(Rights::READ));
    assert_eq!(table.add(h), Err("handle table full"));
    let mut base = KernelObjectBase::new(ObjectType::Port);
    assert_eq!(table.remove(300, &mut base), Err("invalid handle value"));
    assert_eq!(table.remove(5, &mut base), Ok(true));
    assert_eq!(table.remove(5, &mut base), Ok(false));
}

#[test]
fn handle_require_errors() {
    let null = Handle::with_id(1, None, r(Rights::READ));
    assert_eq!(null.require(r(Rights::READ)), Err("invalid handle"));
    assert_eq!(null.object_type(), ObjectType::Unknown);
    let h = Handle::with_id(2, Some(ObjectRef { koid: 1, obj_type: ObjectType::Event }), r(Rights::READ));
    assert_eq!(h.require(r(Rights::WRITE)), Err("access denied"));
    let mut ids = IdAllocator::new(10);
    let mut base = KernelObjectBase::new(ObjectType::Event);
    assert_eq!(h.duplicate(&mut ids, &mut base).err(), Some("access denied"));
    assert_eq!(base.ref_count(), 1);
}

#[test]
fn handle_duplicate_with_mask_reduces_rights() {
    let mut ids = IdAllocator::new(10);
    let mut base = KernelObjectBase::new(ObjectType::Vmo);
    let h = Handle::with_id(2, Some(ObjectRef { koid: 1, obj_type: ObjectType::Vmo }), r(Rights::DEFAULT) | r(Rights::DUPLICATE));
    let d = h.duplicate_with_mask(r(Rights::READ), &mut ids, &mut base).unwrap();
    assert_eq!(d.rights(), r(Rights::READ));
    assert_eq!(d.id(), 10);
    let d2 = h.duplicate_with_mask(r(Rights::SAME_RIGHTS), &mut ids, &mut base).unwrap();
    assert_eq!(d2.rights(), h.rights());
    assert_eq!(d2.id(), 11);
    assert_eq!(base.ref_count(), 3);
    assert!(!h.close(&mut base));
}

#[test]
fn rights_default_for_type_values() {
    assert_eq!(Rights::default_for_type(ObjectType::Vmar).into_raw(), 0x13);
    assert_eq!(Rights::default_for_type(ObjectType::Timer).into_raw(), 0x0A);
    assert_eq!(Rights::default_for_type(ObjectType::Unknown).into_raw(), 0);
    assert_eq!(Rights::default_for_type(ObjectType::Vmo).into_raw(), 0x1F);
}

#[test]
fn test_channel_create() {
    let mut ids = IdAllocator::new(1);
    let (ch_a, ch_b) = Channel::create(&mut ids).unwrap();

    assert_eq!(ch_a.state(), ChannelState::Active);
    assert_eq!(ch_b.state(), ChannelState::Active);

    assert_eq!(ch_a.peer_id(), Some(ch_b.id()));
    assert_eq!(ch_b.peer_id(), Some(ch_a.id()));
}

#[test]
fn test_message() {
    let data = vec![1, 2, 3, 4];
    let handles = vec![];

    let msg = Message::new(data.clone(), handles);

    assert_eq!(msg.data_size(), 4);
    assert_eq!(msg.handle_count(), 0);
    assert!(!msg.is_empty());
}

#[test]
fn test_channel_write_read() {
    let mut ids = IdAllocator::new(1);
    let (ch_a, mut ch_b) = Channel::create(&mut ids).unwrap();

    let data = vec![1, 2, 3, 4];
    ch_a.write(&mut ch_b, &data, &[], &mut ids).unwrap();

    assert_eq!(ch_b.queue_len(), 1);

    let mut buf = [0u8; 10];
    let mut handle_buf: [Handle; 0] = [];

    let result = ch_b.read(&mut buf, &mut handle_buf, &mut ids).unwrap();

    assert_eq!(result.bytes_read, 4);
    assert_eq!(result.handles_read, 0);
    assert_eq!(&buf[..4], &data[..]);
}

#[test]
fn test_channel_queue_full() {
    let mut ids = IdAllocator::new(1);
    let (ch_a, _) = Channel::create(&mut ids).unwrap();
    assert_eq!(ch_a.queue_size(), 0);
}

#[test]
fn channel_fifo_and_errors() {
    let mut ids = IdAllocator::new(1);
    let (mut ch_a, mut ch_b) = Channel::create(&mut ids).unwrap();
    let mut buf = [0u8; 2];
    let mut hb: [Handle; 0] = [];
    assert_eq!(ch_b.read(&mut buf, &mut hb, &mut ids).err(), Some("no messages"));
    ch_a.write(&mut ch_b, &[1, 2, 3], &[], &mut ids).unwrap();
    ch_a.write(&mut ch_b, &[9], &[], &mut ids).unwrap();
    assert_eq!(ch_b.queue_size(), 4);
    let res = ch_b.read(&mut buf, &mut hb, &mut ids).unwrap();
    assert_eq!(res.bytes_read, 2);
    assert_eq!(buf, [1, 2]);
    let res = ch_b.read(&mut buf, &mut hb, &mut ids).unwrap();
    assert_eq!(res.bytes_read, 1);
    assert_eq!(buf, [9, 2]);
    let big = vec![0u8; 65537];
    assert_eq!(ch_a.write(&mut ch_b, &big, &[], &mut ids), Err("message too large"));
    assert!(ch_a.close());
    assert_eq!(ch_a.state(), ChannelState::Closed);
    assert_eq!(ch_a.write(&mut ch_b, &[1], &[], &mut ids), Err("channel not active"));
    assert_eq!(ChannelState::from_raw(2), ChannelState::Closed);
    assert_eq!(ChannelState::PeerClosed.into_raw(), 1);
}

#[test]
fn channel_transfers_handles_under_new_ids() {
    let mut ids = IdAllocator::new(100);
    let (ch_a, mut ch_b) = Channel::create(&mut ids).unwrap();
    let h = Handle::with_id(5, Some(ObjectRef { koid: 1, obj_type: ObjectType::Event }), r(Rights::READ));
    ch_a.write(&mut ch_b, &[], &[h], &mut ids).unwrap();
    let mut buf = [0u8; 1];
    let mut hb = [Handle::with_id(0, None, r(Rights::NONE))];
    let res = ch_b.read(&mut buf, &mut hb, &mut ids).unwrap();
    assert_eq!(res.handles_read, 1);
    assert_eq!(hb[0].rights(), r(Rights::READ));
    assert_eq!(hb[0].object_type(), ObjectType::Event);
    assert_eq!(hb[0].id(), 103);
}

#[test]
fn test_job_root() {
    let root = Job::new_root();

    assert_eq!(root.id(), JOB_ID_ROOT);
    assert_eq!(root.parent_id(), None);
    assert_eq!(root.child_count(), 0);
    assert_eq!(root.process_count(), 0);
}

#[test]
fn test_job_child() {
    let mut ids = IdAllocator::new(JOB_ID_FIRST_CHILD);
    let mut root = Job::new_root();
    let child = Job::new_child(&mut root, 0, &mut ids).unwrap();

    assert_eq!(root.child_count(), 1);
    assert_eq!(child.parent_id(), Some(root.id()));
}

#[test]
fn test_job_policy() {
    let policy = JobPolicy(JobPolicy::NoNewProcesses) | JobPolicy(JobPolicy::NoNewThreads);

    assert!(policy.contains(JobPolicy(JobPolicy::NoNewProcesses)));
    assert!(policy.contains(JobPolicy(JobPolicy::NoNewThreads)));
    assert!(!policy.contains(JobPolicy(JobPolicy::NoNewChannels)));
}

#[test]
fn test_job_processes() {
    let mut job = Job::new_root();

    job.add_process(1);
    job.add_process(2);

    assert_eq!(job.process_count(), 2);

    job.remove_process(1);
    assert_eq!(job.process_count(), 1);
}

#[test]
fn test_job_children() {
    let mut ids = IdAllocator::new(JOB_ID_FIRST_CHILD);
    let mut root = Job::new_root();

    let child1 = Job::new_child(&mut root, 0, &mut ids).unwrap();
    let _child2 = Job::new_child(&mut root, 0, &mut ids).unwrap();

    assert_eq!(root.child_count(), 2);

    root.remove_child(child1.id());
    assert_eq!(root.child_count(), 1);
}

#[test]
fn test_resource_limits() {
    let limits = ResourceLimits::unlimited();

    assert!(!limits.has_memory_limit());
    assert!(!limits.has_cpu_time_limit());

    let limits = ResourceLimits {
        max_memory: 1024 * 1024,
        ..ResourceLimits::unlimited()
    };

    assert!(limits.has_memory_limit());
}

#[test]
fn test_job_stats() {
    let stats = JobStats::zero();

    assert_eq!(stats.memory_usage, 0);
    assert_eq!(stats.process_count, 0);
    assert_eq!(stats.thread_count, 0);
}

#[test]
fn job_process_stats_follow_list() {
    let mut job = Job::new_root();
    job.add_process(7);
    job.add_process(7);
    assert_eq!(job.stats().process_count, 2);
    job.remove_process(7);
    assert_eq!(job.stats().process_count, 1);
    job.remove_process(42);
    assert_eq!(job.stats().process_count, 1);
    assert_eq!(JobPolicy::from_raw(1).to_flags(), JobPolicy::Basic);
    assert_eq!(JobPolicy::from_raw(96).to_flags(), JobPolicy::Empty);
}

#[test]
fn test_timer_state() {
    assert_eq!(TimerState::from_raw(1), TimerState::Armed);
    assert_eq!(TimerState::from_raw(2), TimerState::Fired);
    assert_eq!(TimerState::from_raw(3), TimerState::Canceled);
    assert_eq!(TimerState::from_raw(99), TimerState::Disarmed);

    assert_eq!(TimerState::Armed.into_raw(), 1);
}

#[test]
fn test_slack_policy() {
    assert_eq!(SlackPolicy::from_raw(0), SlackPolicy::NoSlack);
    assert_eq!(SlackPolicy::from_raw(1), SlackPolicy::Small);
    assert_eq!(SlackPolicy::from_raw(2), SlackPolicy::Medium);
    assert_eq!(SlackPolicy::from_raw(3), SlackPolicy::Large);

    assert_eq!(SlackPolicy::Small.duration(), 100_000);
    assert_eq!(SlackPolicy::Medium.duration(), 1_000_000);
    assert_eq!(SlackPolicy::Large.duration(), 10_000_000);
}

#[test]
fn test_timer_create() {
    let mut ids = IdAllocator::new(1);
    let timer = Timer::create(&mut ids).unwrap();
    assert_eq!(timer.state(), TimerState::Disarmed);
    assert_eq!(timer.deadline(), 0);
    assert_eq!(timer.slack(), 0);
}

#[test]
fn test_timer_set() {
    let mut ids = IdAllocator::new(1);
    let mut timer = Timer::create(&mut ids).unwrap();

    timer.set(1_000_000, Some(100)).unwrap();
    assert_eq!(timer.state(), TimerState::Armed);
    assert_eq!(timer.deadline(), 1_000_000);
    assert_eq!(timer.slack(), 100);
}

#[test]
fn test_timer_cancel() {
    let mut ids = IdAllocator::new(1);
    let mut timer = Timer::create(&mut ids).unwrap();

    assert!(timer.cancel().is_err());

    timer.set(1_000_000, None).unwrap();
    assert_eq!(timer.state(), TimerState::Armed);

    timer.cancel().unwrap();
    assert_eq!(timer.state(), TimerState::Canceled);
}

#[test]
fn test_timer_periodic() {
    let mut ids = IdAllocator::new(1);
    let mut timer = Timer::create(&mut ids).unwrap();

    timer.set_periodic(1_000_000, 100_000, None).unwrap();
    assert_eq!(timer.state(), TimerState::Armed);

    let period = timer.period;
    assert_eq!(period, Some(100_000));
}

#[test]
fn test_timer_periodic_zero() {
    let mut ids = IdAllocator::new(1);
    let mut timer = Timer::create(&mut ids).unwrap();

    assert!(timer.set_periodic(1_000_000, 0, None).is_err());
}

#[test]
fn timer_cancel_and_wait_outcomes() {
    let mut ids = IdAllocator::new(1);
    let mut timer = Timer::create(&mut ids).unwrap();
    assert_eq!(timer.cancel(), Err("timer not armed"));
    timer.set(5, None).unwrap();
    assert!(timer.wait().is_ok());
    timer.cancel().unwrap();
    assert_eq!(timer.wait(), Err("timer canceled"));
    assert_eq!(timer.cancel(), Err("timer not armed"));
    assert_eq!(SlackPolicy::NoSlack.duration(), 0);
}

#[test]
fn test_vmo_flags() {
    let flags = VmoFlags::empty();
    assert!(!flags.is_resizable());
    assert!(!flags.is_cow());

    let flags = VmoFlags(VmoFlags::RESIZABLE);
    assert!(flags.is_resizable());

    let flags = VmoFlags(VmoFlags::COW);
    assert!(flags.is_cow());

    let flags = VmoFlags(VmoFlags::RESIZABLE) | VmoFlags(VmoFlags::COW);
    assert!(flags.is_resizable());
    assert!(flags.is_cow());
}

#[test]
fn test_cache_policy() {
    assert_eq!(CachePolicy::from_raw(0), CachePolicy::Default);
    assert_eq!(CachePolicy::from_raw(1), CachePolicy::Uncached);
    assert_eq!(CachePolicy::from_raw(2), CachePolicy::WriteCombining);
    assert_eq!(CachePolicy::from_raw(3), CachePolicy::WriteThrough);
}

#[test]
fn test_vmo_create() {
    let mut ids = IdAllocator::new(1);
    let vmo = Vmo::create(0x1000, VmoFlags::empty(), &mut ids).unwrap();
    assert_eq!(vmo.size(), 0x1000);
    assert_eq!(vmo.cache_policy(), CachePolicy::Default);
}

#[test]
fn test_vmo_create_rounding() {
    let mut ids = IdAllocator::new(1);
    let vmo = Vmo::create(0x1001, VmoFlags::empty(), &mut ids).unwrap();
    assert_eq!(vmo.size(), 0x2000);
}

#[test]
fn test_vmo_create_zero() {
    let mut ids = IdAllocator::new(1);
    assert!(Vmo::create(0, VmoFlags::empty(), &mut ids).is_err());
}

#[test]
fn test_vmo_resize() {
    let mut ids = IdAllocator::new(1);
    let mut vmo = Vmo::create(0x1000, VmoFlags(VmoFlags::RESIZABLE), &mut ids).unwrap();
    vmo.resize(0x2000).unwrap();
    assert_eq!(vmo.size(), 0x2000);
}

#[test]
fn test_vmo_not_resizable() {
    let mut ids = IdAllocator::new(1);
    let mut vmo = Vmo::create(0x1000, VmoFlags::empty(), &mut ids).unwrap();
    assert!(vmo.resize(0x2000).is_err());
}

#[test]
fn test_vmo_write_read() {
    let mut ids = IdAllocator::new(1);
    let mut vmo = Vmo::create(0x1000, VmoFlags::empty(), &mut ids).unwrap();

    let data = [1, 2, 3, 4];
    vmo.write(0, &data).unwrap();

    let mut buf = [0u8; 10];
    let bytes_read = vmo.read(0, &mut buf).unwrap();

    assert_eq!(bytes_read, 4);
}

#[test]
fn test_vmo_read_out_of_bounds() {
    let mut ids = IdAllocator::new(1);
    let vmo = Vmo::create(0x1000, VmoFlags::empty(), &mut ids).unwrap();

    let mut buf = [0u8; 10];
    assert!(vmo.read(0x2000, &mut buf).is_err());
}

#[test]
fn test_vmo_clone() {
    let mut ids = IdAllocator::new(1);
    let parent = Vmo::create(0x1000, VmoFlags::empty(), &mut ids).unwrap();
    let child = parent.clone(&mut ids).unwrap();

    assert!(child.flags.is_cow());
    assert_eq!(child.size(), parent.size());
}

#[test]
fn vmo_read_back_what_was_written() {
    let mut ids = IdAllocator::new(1);
    let mut vmo = Vmo::create(0x1000, VmoFlags::empty(), &mut ids).unwrap();
    assert_eq!(vmo.write(4094, &[7, 8, 9, 10]), Ok(2));
    assert_eq!(vmo.write(10, &[5, 6]), Ok(2));
    let mut buf = [0xAAu8; 4];
    assert_eq!(vmo.read(8, &mut buf), Ok(4));
    assert_eq!(buf, [0, 0, 5, 6]);
    let mut tail = [0u8; 8];
    assert_eq!(vmo.read(4094, &mut tail), Ok(2));
    assert_eq!(&tail[..2], &[7, 8]);
    assert_eq!(vmo.write(4096, &[1]), Err("offset out of bounds"));
    let child = vmo.clone(&mut ids).unwrap();
    let mut cbuf = [0u8; 2];
    assert_eq!(child.read(10, &mut cbuf), Ok(2));
    assert_eq!(cbuf, [5, 6]);
}

#[test]
fn test_handle_owner() {
    let mut ids = IdAllocator::new(1);
    let mut base = KernelObjectBase::new(ObjectType::Process);
    {
        let owner = HandleOwner::new(
            &mut ids,
            Some(ObjectRef { koid: 3, obj_type: ObjectType::Process }),
            r(Rights::MANAGE),
        );
        assert_eq!(owner.id(), owner.get().id);
        assert_eq!(base.ref_count(), 1);
        // leaving the scope closes the owned handle
        owner.close(&mut base);
    }

    let mut base2 = KernelObjectBase::new(ObjectType::Thread);
    {
        let owner = HandleOwner::new(
            &mut ids,
            Some(ObjectRef { koid: 4, obj_type: ObjectType::Thread }),
            r(Rights::MANAGE),
        );
        assert_eq!(base2.ref_count(), 1);
        owner.close(&mut base2);
    }

    assert_eq!(base2.ref_count(), 0);
}

#[test]
fn test_rights_assign_operators() {
    let mut rights = r(Rights::READ);
    rights |= r(Rights::WRITE);
    assert!(rights.contains(r(Rights::READ)));
    assert!(rights.contains(r(Rights::WRITE)));
    rights &= r(Rights::WRITE);
    assert!(!rights.contains(r(Rights::READ)));
    assert!(rights.contains(r(Rights::WRITE)));
}

/// Closing a handle releases the last reference only when the object's
/// count was one.
#[test]
fn test_handle_close() {
    let mut base = KernelObjectBase::new(ObjectType::Event);
    base.ref_inc();
    let handle = Handle::with_id(1, Some(ObjectRef { koid: 1, obj_type: ObjectType::Event }), r(Rights::READ));
    assert_eq!(base.ref_count(), 2);
    assert!(!handle.close(&mut base)); // the object still holds a reference

    let mut base2 = KernelObjectBase::new(ObjectType::Channel);
    let handle2 = Handle::with_id(2, Some(ObjectRef { koid: 2, obj_type: ObjectType::Channel }), r(Rights::READ));
    assert_eq!(base2.ref_count(), 1);
    assert!(handle2.close(&mut base2)); // last reference
}
