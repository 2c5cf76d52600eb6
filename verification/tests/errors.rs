use dinein_takeout_billing::error::PosError;

#[test]
fn test_error_display_and_constructors() {
    let val_err = PosError::validation("Invalid mobile number");
    assert_eq!(val_err.message(), "Validation error: Invalid mobile number");

    let nf_err = PosError::not_found("Table Garden #4");
    assert_eq!(nf_err.message(), "Resource not found: Table Garden #4");

    let prn_err = PosError::printer("Paper out");
    assert_eq!(prn_err.message(), "Thermal printer error: Paper out");

    let oth_err: PosError = PosError::other("Something failed");
    assert_eq!(oth_err.message(), "Application error: Something failed");

    let io_err = PosError::from_io(&std::io::Error::new(
        std::io::ErrorKind::NotFound,
        "file missing",
    ));
    assert!(io_err.message().contains("file missing"));
}
