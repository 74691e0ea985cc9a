use zpl_print::command::{MediaType, PostPrintAction, ZplCommand};

fn text(command: ZplCommand) -> String {
    String::from(command)
}

#[test]
fn test_raw() {
    let c = ZplCommand::Raw {
        text: "Abc".to_string(),
        response_lines: 0,
    };

    assert_eq!(String::from(c), "Abc");
}

#[test]
fn test_setup() {
    let c = ZplCommand::LabelSetup {
        w: 57,
        h: 32,
        dots: 12,
    };
    assert_eq!(String::from(c), "^PW684\n^LL0384");
}

#[test]
fn raw_text_is_not_escaped() {
    let c = ZplCommand::Raw {
        text: "^FO1,2\n~x\\ \"q\"".to_string(),
        response_lines: 7,
    };
    assert_eq!(text(c), "^FO1,2\n~x\\ \"q\"");
}

#[test]
fn raw_text_may_be_empty() {
    let c = ZplCommand::Raw {
        text: String::new(),
        response_lines: 0,
    };
    assert_eq!(text(c), "");
}

#[test]
fn magic_is_the_fixed_two_lines() {
    assert_eq!(
        text(ZplCommand::Magic),
        "CT~~CD,~CC^~CT~\n^XA~TA000~JSN^LT0^MNW"
    );
}

#[test]
fn fixed_literals() {
    assert_eq!(text(ZplCommand::PersistConfig), "^JUS");
    assert_eq!(text(ZplCommand::Start), "^XA");
    assert_eq!(text(ZplCommand::End), "^XZ");
    assert_eq!(text(ZplCommand::HostIndication), "~HI");
    assert_eq!(text(ZplCommand::HostRamStatus), "~HM");
    assert_eq!(text(ZplCommand::HostStatusReturn), "~HS");
}

#[test]
fn half_density_selects_a_or_b() {
    assert_eq!(text(ZplCommand::SetHalfDensity(false)), "^JMA");
    assert_eq!(text(ZplCommand::SetHalfDensity(true)), "^JMB");
}

#[test]
fn inversion_selects_y_or_n() {
    assert_eq!(text(ZplCommand::SetInverted(true)), "^LRY");
    assert_eq!(text(ZplCommand::SetInverted(false)), "^LRN");
}

#[test]
fn media_type_selects_d_or_t() {
    assert_eq!(text(ZplCommand::SetMediaType(MediaType::Direct)), "^MTD");
    assert_eq!(text(ZplCommand::SetMediaType(MediaType::Transfer)), "^MTT");
}

#[test]
fn post_print_action_selects_t_or_c() {
    assert_eq!(
        text(ZplCommand::SetPostPrintAction(PostPrintAction::TearOff)),
        "^MMT"
    );
    assert_eq!(
        text(ZplCommand::SetPostPrintAction(PostPrintAction::Cut)),
        "^MMC"
    );
}

#[test]
fn darkness_is_plain_decimal() {
    assert_eq!(text(ZplCommand::SetDarkness(15)), "~SD15");
    assert_eq!(text(ZplCommand::SetDarkness(0)), "~SD0");
    assert_eq!(text(ZplCommand::SetDarkness(7)), "~SD7");
}

#[test]
fn darkness_is_not_range_checked() {
    assert_eq!(text(ZplCommand::SetDarkness(1000000)), "~SD1000000");
    assert_eq!(
        text(ZplCommand::SetDarkness(usize::MAX)),
        format!("~SD{}", usize::MAX)
    );
}

#[test]
fn encoding_is_plain_decimal() {
    assert_eq!(text(ZplCommand::SetEncoding(0)), "^CI0");
    assert_eq!(text(ZplCommand::SetEncoding(28)), "^CI28");
}

#[test]
fn home_is_x_then_y() {
    assert_eq!(text(ZplCommand::SetHome(0, 0)), "^LH0,0");
    assert_eq!(text(ZplCommand::SetHome(32, 7)), "^LH32,7");
    assert_eq!(
        text(ZplCommand::SetHome(u32::MAX, 10)),
        "^LH4294967295,10"
    );
}

#[test]
fn speed_is_print_then_slew() {
    assert_eq!(text(ZplCommand::SetSpeed { print: 4, slew: 4 }), "^PR4,4");
    assert_eq!(text(ZplCommand::SetSpeed { print: 2, slew: 12 }), "^PR2,12");
}

#[test]
fn horizontal_shift_is_plain_decimal() {
    assert_eq!(text(ZplCommand::SetHorizontalShift(0)), "^LS0");
    assert_eq!(text(ZplCommand::SetHorizontalShift(120)), "^LS120");
}

#[test]
fn vertical_shift_shows_only_a_minus() {
    assert_eq!(text(ZplCommand::SetVerticalShift(12)), "^LT12");
    assert_eq!(text(ZplCommand::SetVerticalShift(0)), "^LT0");
    assert_eq!(text(ZplCommand::SetVerticalShift(-12)), "^LT-12");
    assert_eq!(
        text(ZplCommand::SetVerticalShift(isize::MIN)),
        format!("^LT{}", isize::MIN)
    );
    assert_eq!(
        text(ZplCommand::SetVerticalShift(isize::MAX)),
        format!("^LT{}", isize::MAX)
    );
}

#[test]
fn tear_off_position_minus_twenty() {
    assert_eq!(text(ZplCommand::SetTearOffPosition(-20)), "~TA-020");
}

#[test]
fn tear_off_position_always_shows_its_sign() {
    assert_eq!(text(ZplCommand::SetTearOffPosition(0)), "~TA+000");
    assert_eq!(text(ZplCommand::SetTearOffPosition(5)), "~TA+005");
    assert_eq!(text(ZplCommand::SetTearOffPosition(-5)), "~TA-005");
    assert_eq!(text(ZplCommand::SetTearOffPosition(120)), "~TA+120");
    assert_eq!(text(ZplCommand::SetTearOffPosition(-120)), "~TA-120");
}

#[test]
fn tear_off_position_wider_than_the_field() {
    assert_eq!(text(ZplCommand::SetTearOffPosition(1234)), "~TA+1234");
    assert_eq!(text(ZplCommand::SetTearOffPosition(-1234)), "~TA-1234");
    assert_eq!(
        text(ZplCommand::SetTearOffPosition(isize::MIN)),
        format!("~TA{:>+04}", isize::MIN)
    );
}

#[test]
fn move_origin_is_x_then_y() {
    assert_eq!(text(ZplCommand::MoveOrigin(32, 32)), "^FO32,32");
    assert_eq!(text(ZplCommand::MoveOrigin(0, 9)), "^FO0,9");
}

#[test]
fn print_quantity_has_four_fields() {
    let c = ZplCommand::PrintQuantity {
        total: 3,
        pause_and_cut_after: 2,
        replicates: 1,
        cut_only: true,
    };
    assert_eq!(text(c), "^PQ3,2,1,Y");
    let c = ZplCommand::PrintQuantity {
        total: 10,
        pause_and_cut_after: 0,
        replicates: 25,
        cut_only: false,
    };
    assert_eq!(text(c), "^PQ10,0,25,N");
}

#[test]
fn label_setup_multiplies_before_it_pads() {
    let c = ZplCommand::LabelSetup {
        w: 2,
        h: 3,
        dots: 4,
    };
    assert_eq!(text(c), "^PW008\n^LL0012");
    let c = ZplCommand::LabelSetup {
        w: 0,
        h: 0,
        dots: 12,
    };
    assert_eq!(text(c), "^PW000\n^LL0000");
}

#[test]
fn label_setup_at_the_edge_of_its_fields() {
    let c = ZplCommand::LabelSetup {
        w: 999,
        h: 9999,
        dots: 1,
    };
    assert_eq!(text(c), "^PW999\n^LL9999");
    let c = ZplCommand::LabelSetup {
        w: 1000,
        h: 10000,
        dots: 1,
    };
    assert_eq!(text(c), "^PW1000\n^LL10000");
}

#[test]
fn label_setup_wider_than_its_field_is_not_truncated() {
    let c = ZplCommand::LabelSetup {
        w: 100,
        h: 10,
        dots: 12,
    };
    assert_eq!(text(c), "^PW1200\n^LL0120");
    let c = ZplCommand::LabelSetup {
        w: 51,
        h: 900,
        dots: 24,
    };
    assert_eq!(text(c), "^PW1224\n^LL21600");
}

#[test]
fn label_setup_product_beyond_32_bits() {
    let c = ZplCommand::LabelSetup {
        w: u32::MAX,
        h: 65536,
        dots: 65536,
    };
    assert_eq!(text(c), "^PW281474976645120\n^LL4294967296");
    let c = ZplCommand::LabelSetup {
        w: u32::MAX,
        h: u32::MAX,
        dots: u32::MAX,
    };
    assert_eq!(
        text(c),
        "^PW18446744065119617025\n^LL18446744065119617025"
    );
}

#[test]
fn serialize_matches_the_conversion() {
    let c = ZplCommand::SetHome(12, 34);
    assert_eq!(c.serialize(), "^LH12,34");
    assert_eq!(c.serialize(), String::from(c.clone()));
}

#[test]
fn serializing_twice_gives_the_same_text() {
    let commands = vec![
        ZplCommand::Magic,
        ZplCommand::SetDarkness(15),
        ZplCommand::SetTearOffPosition(-20),
        ZplCommand::LabelSetup {
            w: 57,
            h: 32,
            dots: 12,
        },
        ZplCommand::Raw {
            text: "Abc".to_string(),
            response_lines: 2,
        },
    ];
    for c in commands.iter() {
        let first = c.serialize();
        let second = c.serialize();
        assert_eq!(first.as_bytes(), second.as_bytes());
        assert_eq!(first, String::from(c.clone()));
    }
}

#[test]
fn write_to_appends_and_keeps_what_was_there() {
    let mut out = String::from("^XA");
    ZplCommand::SetDarkness(15).write_to(&mut out);
    ZplCommand::End.write_to(&mut out);
    assert_eq!(out, "^XA~SD15^XZ");
}

#[test]
fn commands_are_printable_ascii_lines() {
    let one_line = vec![
        ZplCommand::PersistConfig,
        ZplCommand::SetDarkness(30),
        ZplCommand::SetEncoding(28),
        ZplCommand::SetInverted(true),
        ZplCommand::SetHalfDensity(false),
        ZplCommand::SetHome(1, 2),
        ZplCommand::SetSpeed { print: 4, slew: 6 },
        ZplCommand::SetMediaType(MediaType::Transfer),
        ZplCommand::SetPostPrintAction(PostPrintAction::Cut),
        ZplCommand::SetHorizontalShift(3),
        ZplCommand::SetVerticalShift(-120),
        ZplCommand::SetTearOffPosition(-20),
        ZplCommand::MoveOrigin(5, 6),
        ZplCommand::PrintQuantity {
            total: 1,
            pause_and_cut_after: 1,
            replicates: 1,
            cut_only: true,
        },
        ZplCommand::HostIndication,
        ZplCommand::HostRamStatus,
        ZplCommand::HostStatusReturn,
        ZplCommand::Start,
        ZplCommand::End,
    ];
    for c in one_line {
        let t = text(c);
        assert!(!t.is_empty());
        assert!(t.bytes().all(|b| (b' '..=b'~').contains(&b)));
    }
    let two_lines = vec![
        ZplCommand::Magic,
        ZplCommand::LabelSetup {
            w: 57,
            h: 32,
            dots: 12,
        },
    ];
    for c in two_lines {
        let t = text(c);
        assert_eq!(t.bytes().filter(|b| *b == b'\n').count(), 1);
        for line in t.split('\n') {
            assert!(!line.is_empty());
            assert!(line.bytes().all(|b| (b' '..=b'~').contains(&b)));
        }
    }
}
