use esp32s3_collector::diag::{
    bus_off_line, heartbeat_line, next_bus_off_count, stall_check, stall_line, HeapTracker,
    Heartbeat,
};

#[test]
fn heap_window_statistics() {
    let mut t = HeapTracker::new();
    assert_eq!(t.avg(), 0);
    assert_eq!(t.reported_min(), 0);
    t.sample(100);
    t.sample(300);
    t.sample(200);
    assert_eq!(t.min, 100);
    assert_eq!(t.max, 300);
    assert_eq!(t.avg(), 200);
    assert_eq!(t.reported_min(), 100);
    assert!(t.min <= t.avg() && t.avg() <= t.max);
    t.reset();
    assert_eq!(t.samples, 0);
    assert_eq!(t.reported_min(), 0);
}

#[test]
fn notice_lines() {
    assert_eq!(bus_off_line(10), "10,DIAG,0x000,,,,,,,,NOR,BUS_OFF_RECOVERED_latency_ms=128\n");
    assert_eq!(stall_line(30000), "30000,DIAG,0x000,,,,,,,,NOR,LOGGER_STALL\n");
}

#[test]
fn stall_detection() {
    assert_eq!(stall_check(true, 10, 10, true), (true, 10));
    assert_eq!(stall_check(true, 10, 10, false), (false, 10));
    assert_eq!(stall_check(true, 11, 10, true), (false, 11));
    assert_eq!(stall_check(false, 11, 10, true), (false, 10));
}

#[test]
fn bus_off_counter_wraps() {
    assert_eq!(next_bus_off_count(0), 1);
    assert_eq!(next_bus_off_count(u32::MAX), 0);
}

#[test]
fn heartbeat() {
    let h = Heartbeat {
        uptime_s: 60,
        frames_rx: 1,
        frames_sd: 2,
        frames_mqtt: 3,
        lost: 4,
        overflow: 5,
        bus_off: 6,
        heap_free: 7,
        heap_min: 8,
        heap_max: 9,
        heap_avg: 10,
        heap_used: 11,
        sd_write_offset: 12,
        psram: 13,
    };
    assert_eq!(
        heartbeat_line(60000, &h),
        "60000,DIAG,0x000,,,,,,,,NOR,HEARTBEAT up=60 rx=1 sd=2 mqtt=3 lost=4 ovf=5 bo=6 hf=7 hmin=8 hmax=9 havg=10 hu=11 sdwr=12 psram=13\n"
    );
}

#[test]
fn window_statistics_over_samples() {
    let hs = [5000usize, 4000, 7000, 6000];
    let mut t = HeapTracker::new();
    for h in hs {
        t.sample(h);
    }
    assert_eq!(t.samples, 4);
    assert_eq!(t.sum, 22000);
    assert_eq!(t.min, 4000);
    assert_eq!(t.max, 7000);
    assert_eq!(t.avg(), 5500);
}
