use zpl_print::command::{MediaType, PostPrintAction, ZplCommand};

#[test]
fn host_indication_expects_one_line() {
    assert_eq!(ZplCommand::HostIndication.how_many_lines_of_text(), 1);
}

#[test]
fn host_ram_status_expects_one_line() {
    assert_eq!(ZplCommand::HostRamStatus.how_many_lines_of_text(), 1);
}

#[test]
fn host_status_return_expects_three_lines() {
    assert_eq!(ZplCommand::HostStatusReturn.how_many_lines_of_text(), 3);
}

#[test]
fn raw_expects_no_line_whatever_it_declares() {
    let c = ZplCommand::Raw {
        text: "~HS".to_string(),
        response_lines: 3,
    };
    assert_eq!(c.how_many_lines_of_text(), 0);
    let c = ZplCommand::Raw {
        text: "Abc".to_string(),
        response_lines: 0,
    };
    assert_eq!(c.how_many_lines_of_text(), 0);
}

#[test]
fn magic_expects_no_line() {
    assert_eq!(ZplCommand::Magic.how_many_lines_of_text(), 0);
}

#[test]
fn persist_config_expects_no_line() {
    assert_eq!(ZplCommand::PersistConfig.how_many_lines_of_text(), 0);
}

#[test]
fn set_darkness_expects_no_line() {
    assert_eq!(ZplCommand::SetDarkness(15).how_many_lines_of_text(), 0);
}

#[test]
fn set_encoding_expects_no_line() {
    assert_eq!(ZplCommand::SetEncoding(0).how_many_lines_of_text(), 0);
}

#[test]
fn set_inverted_expects_no_line() {
    assert_eq!(ZplCommand::SetInverted(true).how_many_lines_of_text(), 0);
}

#[test]
fn set_half_density_expects_no_line() {
    assert_eq!(ZplCommand::SetHalfDensity(true).how_many_lines_of_text(), 0);
}

#[test]
fn set_home_expects_no_line() {
    assert_eq!(ZplCommand::SetHome(1, 3).how_many_lines_of_text(), 0);
}

#[test]
fn set_speed_expects_no_line() {
    let c = ZplCommand::SetSpeed { print: 1, slew: 3 };
    assert_eq!(c.how_many_lines_of_text(), 0);
}

#[test]
fn set_media_type_expects_no_line() {
    let c = ZplCommand::SetMediaType(MediaType::Direct);
    assert_eq!(c.how_many_lines_of_text(), 0);
}

#[test]
fn label_setup_expects_no_line() {
    let c = ZplCommand::LabelSetup {
        w: 1,
        h: 3,
        dots: 3,
    };
    assert_eq!(c.how_many_lines_of_text(), 0);
}

#[test]
fn set_post_print_action_expects_no_line() {
    let c = ZplCommand::SetPostPrintAction(PostPrintAction::Cut);
    assert_eq!(c.how_many_lines_of_text(), 0);
}

#[test]
fn set_horizontal_shift_expects_no_line() {
    assert_eq!(ZplCommand::SetHorizontalShift(3).how_many_lines_of_text(), 0);
}

#[test]
fn set_vertical_shift_expects_no_line() {
    assert_eq!(ZplCommand::SetVerticalShift(-3).how_many_lines_of_text(), 0);
}

#[test]
fn set_tear_off_position_expects_no_line() {
    assert_eq!(
        ZplCommand::SetTearOffPosition(-3).how_many_lines_of_text(),
        0
    );
}

#[test]
fn move_origin_expects_no_line() {
    assert_eq!(ZplCommand::MoveOrigin(1, 3).how_many_lines_of_text(), 0);
}

#[test]
fn print_quantity_expects_no_line() {
    let c = ZplCommand::PrintQuantity {
        total: 1,
        pause_and_cut_after: 3,
        replicates: 3,
        cut_only: false,
    };
    assert_eq!(c.how_many_lines_of_text(), 0);
}

#[test]
fn start_expects_no_line() {
    assert_eq!(ZplCommand::Start.how_many_lines_of_text(), 0);
}

#[test]
fn end_expects_no_line() {
    assert_eq!(ZplCommand::End.how_many_lines_of_text(), 0);
}
