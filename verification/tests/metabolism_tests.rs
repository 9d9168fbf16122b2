use hypha::compute::{fuel_cost, fuel_limit, settle, ComputeError};
use hypha::{BasicSensor, BatteryMetabolism, Metabolism, MockMetabolism, PowerMode, SporeNode, VirtualSensor};

#[test]
fn test_battery_energy_model() {
    let mut battery = BatteryMetabolism::default();
    assert_eq!(battery.voltage, 4_200_000);
    assert_eq!(battery.mah_remaining, 2_500_000_000);
    assert_eq!(battery.temp_celsius, 25_000_000);
    assert!(!battery.is_mains_powered());
    assert_eq!(battery.energy_score(), 1_000_000);

    battery.set_mode(PowerMode::Normal);
    assert_eq!((battery.voltage, battery.mah_remaining), (4_000_000, 2_000_000_000));
    // 0.4 * 0.7 / 0.9 + 0.6 * 0.8
    assert_eq!(battery.energy_score(), 791_111);
    battery.set_mode(PowerMode::LowBattery);
    assert_eq!((battery.voltage, battery.mah_remaining), (3_600_000, 500_000_000));
    assert_eq!(battery.energy_score(), 253_333);
    battery.set_mode(PowerMode::Critical);
    assert_eq!((battery.voltage, battery.mah_remaining), (3_300_000, 50_000_000));
    assert_eq!(battery.energy_score(), 12_000);
    assert_eq!(battery.remaining(), 50_000_000);

    // below the empty voltage the score stays at zero, above full at one
    battery.voltage = 3_200_000;
    battery.mah_remaining = 0;
    assert_eq!(battery.energy_score(), 0);
    battery.voltage = u64::MAX;
    battery.mah_remaining = u64::MAX;
    assert_eq!(battery.energy_score(), 1_000_000);
}

#[test]
fn test_mains_power_is_full_energy() {
    for (voltage, mah) in [(0, 0), (3_300_000, 50_000_000), (4_200_000, 2_500_000_000), (u64::MAX, 1)] {
        let supply = BatteryMetabolism { voltage, mah_remaining: mah, temp_celsius: -5_000_000, is_mains: true };
        assert!(supply.is_mains_powered());
        assert_eq!(supply.energy_score(), 1_000_000);
    }
}

#[test]
fn test_battery_consumption() {
    let mut battery = BatteryMetabolism::default();
    assert!(battery.consume(500_000_000));
    assert_eq!(battery.mah_remaining, 2_000_000_000);
    // 3.3 + 0.9 * 2000 / 2500
    assert_eq!(battery.voltage, 4_020_000);
    assert_eq!(battery.energy_score(), 800_000);
    assert!(battery.consume(u64::MAX));
    assert_eq!((battery.mah_remaining, battery.voltage), (0, 3_300_000));
    assert_eq!(battery.energy_score(), 0);
    // depleted: refused, and nothing changes
    assert!(!battery.consume(1));
    assert!(!battery.consume(0));
    assert_eq!((battery.mah_remaining, battery.voltage), (0, 3_300_000));
    let copy = battery.clone();
    assert_eq!((copy.voltage, copy.mah_remaining, copy.is_mains), (3_300_000, 0, false));
}

#[test]
fn test_mock_metabolism() {
    let mut mock = MockMetabolism::new(400_000, true);
    assert_eq!(mock.energy_score(), 400_000);
    assert!(mock.is_mains_powered());
    assert_eq!(mock.remaining(), 1_000_000_000);
    mock.set_mode(PowerMode::Critical);
    assert_eq!(mock.energy_score(), 400_000);
    assert!(mock.consume(150_000));
    assert_eq!(mock.energy, 250_000);
    assert!(mock.consume(300_000));
    assert_eq!(mock.energy, 0);
    assert!(!mock.consume(1));
    mock.energy = u64::MAX;
    assert_eq!(mock.remaining(), u64::MAX);
}

#[test]
fn test_fuel_accounting() {
    assert_eq!(fuel_limit(1_000_000), 100_000);
    assert_eq!(fuel_limit(100), 10);
    assert_eq!(fuel_limit(9), 0);
    assert_eq!(fuel_limit(u64::MAX), u64::MAX / 10);
    assert_eq!(fuel_cost(100_000, 90_000), 100_000);
    assert_eq!(fuel_cost(100_000, 100_000), 0);
    assert_eq!(fuel_cost(100_000, 100_001), 0);
    assert_eq!(fuel_cost(10, 3), 70);
    assert_eq!(fuel_cost(u64::MAX, 0), u64::MAX);

    let mut battery = BatteryMetabolism::default();
    assert_eq!(settle(&mut battery, 100_000, 99_000, vec![1, 2]).unwrap(), vec![1, 2]);
    assert_eq!(battery.mah_remaining, 2_500_000_000 - 10_000);
    battery.mah_remaining = 0;
    let error = settle(&mut battery, 100_000, 0, vec![1]).unwrap_err();
    assert!(matches!(error, ComputeError::Exhausted));
    assert_eq!(error.message(), "Resource exhausted");
    assert_eq!(ComputeError::Wasm("trap".to_string()).message(), "WASM runtime error: trap");
    assert_eq!(
        ComputeError::Validation("no run".to_string()).message(),
        "Task validation failed: no run"
    );
}

#[test]
fn test_sensors() {
    let mut sensor = BasicSensor { name: "soil".to_string(), last_value: -2_500_000 };
    assert_eq!(sensor.name(), "soil");
    assert_eq!(sensor.read(), -2_500_000);
    sensor.update_from_mesh(17);
    assert_eq!(sensor.read(), 17);
    assert_eq!(sensor.name(), "soil");

    let mut node = SporeNode::new("n".to_string());
    assert!(node.sensors.is_empty());
    node.add_sensor(Box::new(sensor));
    assert_eq!(node.sensors.len(), 1);
    assert_eq!(node.sensors[0].read(), 17);
    node.sensors[0].update_from_mesh(-1);
    assert_eq!(node.sensors[0].read(), -1);
}
