use imu_orientation::telemetry::report_line;

#[test]
fn the_line_names_each_angle() {
    assert_eq!(
        report_line("0.00000", "0.00000", "0.00000"),
        "yaw=0.00000; pitch=0.00000; roll=0.00000"
    );
    assert_eq!(
        report_line("1.57080", "-0.25000", "3.14159"),
        "yaw=1.57080; pitch=-0.25000; roll=3.14159"
    );
}

#[test]
fn the_line_takes_the_angles_as_they_are_printed() {
    assert_eq!(report_line("", "", ""), "yaw=; pitch=; roll=");
    assert_eq!(report_line("a", "b", "c"), "yaw=a; pitch=b; roll=c");
}
