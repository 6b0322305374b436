use gpio_sim::{
    decimal, mode_label, report, report_entries, report_line, report_prefix, right_padd,
    value_label, Pin, PinError, PinMode, PinTable, PinValue, ReportEntry, Transition, PIN_COUNT,
};

#[test]
fn new_table_is_unconfigured_and_low() {
    let t = PinTable::new();
    let snap = t.snapshot();
    assert_eq!(snap.len(), 14);
    assert_eq!(PIN_COUNT, 14);
    for p in snap {
        assert_eq!(p, Pin { mode: None, value: PinValue::Low });
    }
    assert_eq!(Pin::default(), Pin { mode: None, value: PinValue::Low });
}

#[test]
fn configure_then_read() {
    let mut t = PinTable::new();
    assert_eq!(t.pin_mode(3, PinMode::Input), Ok(()));
    assert_eq!(t.pin(3), Some(Pin { mode: Some(PinMode::Input), value: PinValue::Low }));
    assert_eq!(t.pin_mode(3, PinMode::Output), Ok(()));
    assert_eq!(t.pin(3).unwrap().mode, Some(PinMode::Output));
    assert_eq!(t.pin(4).unwrap().mode, None);
    assert_eq!(t.pin(14), None);
}

#[test]
fn write_then_read() {
    let mut t = PinTable::new();
    t.pin_mode(5, PinMode::Output).unwrap();
    let tr = t.digital_write(5, PinValue::High).unwrap();
    assert_eq!(tr, Transition { mode: PinMode::Output, pin_id: 5, from: PinValue::Low, to: PinValue::High });
    assert_eq!(t.pin(5).unwrap().value, PinValue::High);
    assert!(tr.text().ends_with("High"));
    let tr = t.digital_write(5, PinValue::Low).unwrap();
    assert_eq!(tr.text(), "Output pin 5 changed High -> Low");
    assert_eq!(t.pin(5).unwrap().value, PinValue::Low);
}

#[test]
fn write_to_unconfigured_pin_is_refused() {
    let mut t = PinTable::new();
    let before = t.snapshot();
    assert_eq!(t.digital_write(2, PinValue::High), Err(PinError::UnconfiguredPinWrite));
    assert_eq!(t.snapshot(), before);
}

#[test]
fn out_of_range_is_refused() {
    let mut t = PinTable::new();
    t.pin_mode(0, PinMode::Output).unwrap();
    let before = t.snapshot();
    assert_eq!(t.pin_mode(14, PinMode::Output), Err(PinError::IndexOutOfRange));
    assert_eq!(t.pin_mode(100, PinMode::Input), Err(PinError::IndexOutOfRange));
    assert_eq!(t.digital_write(14, PinValue::High), Err(PinError::IndexOutOfRange));
    assert_eq!(t.digital_write(usize::MAX, PinValue::High), Err(PinError::IndexOutOfRange));
    assert_eq!(t.snapshot(), before);
}

#[test]
fn writes_to_distinct_pins_are_all_kept() {
    let mut t = PinTable::new();
    for i in 0..PIN_COUNT {
        t.pin_mode(i, PinMode::Output).unwrap();
    }
    for i in 0..PIN_COUNT {
        let v = if i % 2 == 0 { PinValue::High } else { PinValue::Low };
        t.digital_write(i, v).unwrap();
    }
    for i in 0..PIN_COUNT {
        let v = if i % 2 == 0 { PinValue::High } else { PinValue::Low };
        assert_eq!(t.pin(i).unwrap().value, v);
    }
}

#[test]
fn report_puts_outputs_first_in_index_order() {
    let mut t = PinTable::new();
    t.pin_mode(9, PinMode::Input).unwrap();
    t.pin_mode(7, PinMode::Output).unwrap();
    t.pin_mode(2, PinMode::Input).unwrap();
    t.pin_mode(11, PinMode::Output).unwrap();
    t.digital_write(11, PinValue::High).unwrap();
    let entries = report_entries(&t.snapshot());
    let order: Vec<(PinMode, usize)> = entries.iter().map(|e| (e.mode, e.pin_id)).collect();
    assert_eq!(
        order,
        vec![
            (PinMode::Output, 7),
            (PinMode::Output, 11),
            (PinMode::Input, 2),
            (PinMode::Input, 9)
        ]
    );
    assert_eq!(entries[1].value, PinValue::High);
    assert_eq!(
        report(&t.snapshot()),
        "Output pin 7                   = Low\n\
         Output pin 11                  = High\n\
         Input  pin 2                   = Low\n\
         Input  pin 9                   = Low\n\n"
    );
}

#[test]
fn report_lines_are_padded_to_width() {
    let e = ReportEntry { mode: PinMode::Input, pin_id: 12, value: PinValue::High };
    let prefix = report_prefix(&e);
    assert_eq!(prefix, "Input  pin 12                 ");
    assert_eq!(prefix.len(), 30);
    assert_eq!(report_line(&e), "Input  pin 12                  = High");
    let wide = ReportEntry { mode: PinMode::Output, pin_id: 12345678901234567890, value: PinValue::Low };
    let prefix = report_prefix(&wide);
    assert_eq!(prefix, "Output pin 12345678901234567890 ");
    assert_eq!(report_line(&wide), "Output pin 12345678901234567890  = Low");
}

#[test]
fn right_padd_pads_and_never_cuts() {
    assert_eq!(right_padd(String::from("ab"), 5, '.'), "ab...");
    assert_eq!(right_padd(String::from("abcdef"), 3, '.'), "abcdef");
    assert_eq!(right_padd(String::from("abc"), 3, '.'), "abc");
    assert_eq!(right_padd(String::from("abc"), -4, '.'), "abc");
    assert_eq!(right_padd(String::new(), 2, ' '), "  ");
}

#[test]
fn labels_and_numbers() {
    assert_eq!(mode_label(PinMode::Input), "Input ");
    assert_eq!(mode_label(PinMode::Output), "Output");
    assert_eq!(value_label(PinValue::Low), "Low");
    assert_eq!(value_label(PinValue::High), "High");
    assert_eq!(decimal(0), "0");
    assert_eq!(decimal(7), "7");
    assert_eq!(decimal(10), "10");
    assert_eq!(decimal(13), "13");
    assert_eq!(decimal(usize::MAX), usize::MAX.to_string());
}

#[test]
fn report_of_unconfigured_table_is_a_blank_line() {
    let t = PinTable::new();
    assert_eq!(report(&t.snapshot()), "\n");
}

#[test]
fn report_twice_is_identical() {
    let mut t = PinTable::new();
    t.pin_mode(4, PinMode::Input).unwrap();
    t.pin_mode(6, PinMode::Output).unwrap();
    t.digital_write(4, PinValue::High).unwrap();
    let first = report(&t.snapshot());
    let second = report(&t.snapshot());
    assert_eq!(first, second);
}

#[test]
fn end_to_end_scenario() {
    let mut t = PinTable::new();
    assert_eq!(t.snapshot().len(), 14);
    t.pin_mode(1, PinMode::Output).unwrap();
    let tr = t.digital_write(1, PinValue::High).unwrap();
    assert_eq!(tr.text(), "Output pin 1 changed Low -> High");
    assert_eq!(report(&t.snapshot()), "Output pin 1                   = High\n\n");
}
