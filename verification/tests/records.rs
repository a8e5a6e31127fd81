use umst_core::data::{uci_sample_texts, correlation_field, reveal_field, uci_proxy_names, SampleField, SyntheticDataProvider};
use umst_core::ecs::{RoboticExtruder, World};
use umst_core::hardware::{energy_counter_reading, BatchProfiler, PowermetricsSampler, RaplMonitor, RaplSample};

#[test]
fn rapl_monitor_remembers_last_sample() {
    let mut m = RaplMonitor::new();
    assert_eq!(m.rapl_path(), "/sys/class/powercap/intel-rapl/intel-rapl:0/energy_uj");
    assert!(m.last_sample().is_none());
    let a = m.sample(1_000);
    let b = m.sample(4_500);
    assert_eq!(a.energy_uj, 1_000);
    assert_eq!(m.last_sample().unwrap().energy_uj, 4_500);
    assert!(b.timestamp >= a.timestamp);
    assert_eq!(RaplMonitor::energy_delta_uj(&a, &b), 3_500);
    assert_eq!(RaplMonitor::energy_delta_uj(&b, &a), 0);
}

#[test]
fn batch_profiler_setup() {
    let p = BatchProfiler::new(64);
    assert_eq!(p.batch_size, 64);
    assert!(p.monitor.last_sample().is_none());
    let _sampler = PowermetricsSampler;
    let s = RaplSample { energy_uj: 1, timestamp: std::time::Instant::now() };
    assert_eq!(s.clone().energy_uj, 1);
}

#[test]
fn test_synthetic_provider() {
    let p = SyntheticDataProvider::new(100);
    assert_eq!(p.n_samples(), 100);
    assert!(!p.proxy_names().is_empty());
    let names: Vec<&str> = p.proxy_names().iter().map(|s| s.as_str()).collect();
    assert_eq!(names, vec!["cement", "water", "age", "slag", "superplasticizer"]);
}

#[test]
fn uci_names_and_columns() {
    let names = uci_proxy_names();
    assert_eq!(names.len(), 10);
    assert_eq!(names[0], "cement");
    assert_eq!(names[9], "humidity");
    for n in &names {
        assert!(correlation_field(n).is_some());
    }
    assert_eq!(correlation_field("fly_ash"), Some(SampleField::FlyAsh));
    assert_eq!(correlation_field("temperature"), Some(SampleField::Temperature));
    assert_eq!(reveal_field("temperature"), Some(SampleField::Temperature));
    assert_eq!(reveal_field("humidity"), Some(SampleField::Humidity));
    for n in &names {
        assert_eq!(reveal_field(n), correlation_field(n));
    }
    assert_eq!(reveal_field("strength"), None);
    assert_eq!(reveal_field("age"), Some(SampleField::Age));
    assert_eq!(correlation_field("strength"), None);
    assert_eq!(correlation_field("Cement"), None);
}

#[test]
fn entities_are_numbered_in_spawn_order() {
    let mut w = World::new();
    let a = w.spawn_entity();
    let b = w.spawn_entity();
    let c = w.spawn_entity();
    assert_eq!((a, b, c), (0, 1, 2));
    assert_eq!(w.next_entity_id, 3);
    let e = RoboticExtruder { name: "nozzle".to_string(), is_constrained: true };
    assert!(e.clone().is_constrained);
}

#[test]
fn rapl_counter_text_is_read_as_decimal() {
    assert_eq!(energy_counter_reading("123456789\n"), 123_456_789);
    assert_eq!(energy_counter_reading("  42 "), 42);
    assert_eq!(energy_counter_reading("+7"), 7);
    assert_eq!(energy_counter_reading("18446744073709551615"), u64::MAX);
    assert_eq!(energy_counter_reading("18446744073709551616"), 0);
    assert_eq!(energy_counter_reading(""), 0);
    assert_eq!(energy_counter_reading("12a"), 0);
    assert_eq!(energy_counter_reading("-5"), 0);
}

#[test]
fn successive_spawns_hand_out_consecutive_numbers() {
    let mut w = World::new();
    w.next_entity_id = 40;
    let ids: Vec<u32> = (0..5).map(|_| w.spawn_entity()).collect();
    assert_eq!(ids, vec![40, 41, 42, 43, 44]);
    assert_eq!(w.next_entity_id, 45);
}

#[test]
fn uci_file_rows_take_their_columns_and_defaults() {
    let csv = b"cement,slag,fly_ash,water,sp,coarse,fine,age,strength\n540,0,0,162,2.5,1040,676,28,79.99\n332.5,142.5,0,228,0,932,594,270,40.27\n";
    let rows = uci_sample_texts(csv).unwrap();
    assert_eq!(rows.len(), 2);
    assert_eq!(rows[0], vec!["540", "0", "0", "162", "2.5", "1040", "676", "28", "79.99", "20.0", "0.5"]);
    assert_eq!(rows[1][0], "332.5");
    assert_eq!(rows[1][8], "40.27");

    let wide = b"a,b,c,d,e,f,g,h,i,j,k,l\n1,2,3,4,5,6,7,8,9,10,11,12\n";
    let rows = uci_sample_texts(wide).unwrap();
    assert_eq!(rows[0], vec!["1", "2", "3", "4", "5", "6", "7", "8", "9", "11", "12"]);

    assert!(uci_sample_texts(b"cement,slag\n").unwrap().is_empty());
    assert!(uci_sample_texts(b"a,b,c\n1,2\n").is_err());
}
