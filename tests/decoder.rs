use acpid_plug::{AcPlugDecoder, DecodeError, Event, PowerState};

#[test]
fn non_record_lines_produce_no_event() {
    for state in [PowerState::Plugged, PowerState::Unplugged] {
        let mut d = AcPlugDecoder::new(state);
        d.push_bytes(b"button/lid LID close\njack/headphone HEADPHONE plug\n");
        assert_eq!(d.next_event(), Ok(None));
        assert_eq!(d.current_state(), state);
    }
}

#[test]
fn plug_record_while_unplugged_emits_once() {
    let mut d = AcPlugDecoder::new(PowerState::Unplugged);
    d.push_bytes(b"ac_adapter 1\n");
    assert_eq!(d.next_event(), Ok(Some(Event::Plugged)));
    assert_eq!(d.current_state(), PowerState::Plugged);
    assert_eq!(d.next_event(), Ok(None));
}

#[test]
fn redundant_records_are_deduplicated() {
    let mut d = AcPlugDecoder::new(PowerState::Plugged);
    d.push_bytes(b"ac_adapter 1\nac_adapter 1\nac_adapter 0\nac_adapter 0\nac_adapter 1\n");
    assert_eq!(d.next_event(), Ok(Some(Event::Unplugged)));
    assert_eq!(d.next_event(), Ok(Some(Event::Plugged)));
    assert_eq!(d.next_event(), Ok(None));
    assert_eq!(d.current_state(), PowerState::Plugged);
}

#[test]
fn split_record_is_reassembled() {
    let mut split = AcPlugDecoder::new(PowerState::Unplugged);
    split.push_bytes(b"ac_adap");
    assert_eq!(split.next_event(), Ok(None));
    assert_eq!(split.current_state(), PowerState::Unplugged);
    split.push_bytes(b"ter 1\n");
    let mut whole = AcPlugDecoder::new(PowerState::Unplugged);
    whole.push_bytes(b"ac_adapter 1\n");
    assert_eq!(split.next_event(), whole.next_event());
    assert_eq!(split.current_state(), whole.current_state());
    assert_eq!(split.current_state(), PowerState::Plugged);
}

#[test]
fn records_after_an_event_stay_buffered() {
    let mut d = AcPlugDecoder::new(PowerState::Unplugged);
    d.push_bytes(b"ac_adapter 1\nac_adapter 0\nac_ad");
    assert_eq!(d.next_event(), Ok(Some(Event::Plugged)));
    assert_eq!(d.current_state(), PowerState::Plugged);
    assert_eq!(d.next_event(), Ok(Some(Event::Unplugged)));
    assert_eq!(d.next_event(), Ok(None));
    d.push_bytes(b"apter 1\n");
    assert_eq!(d.next_event(), Ok(Some(Event::Plugged)));
}

#[test]
fn end_of_stream_after_events_is_clean() {
    let mut d = AcPlugDecoder::new(PowerState::Plugged);
    d.push_bytes(b"ac_adapter 0\n");
    assert_eq!(d.next_event(), Ok(Some(Event::Unplugged)));
    assert_eq!(d.finish(), Ok(None));
    assert_eq!(d.finish(), Ok(None));
}

#[test]
fn end_of_stream_with_no_events_is_clean() {
    let mut d = AcPlugDecoder::new(PowerState::Unplugged);
    assert_eq!(d.finish(), Ok(None));
    assert_eq!(d.current_state(), PowerState::Unplugged);
}

#[test]
fn end_of_stream_reads_unterminated_tail() {
    let mut d = AcPlugDecoder::new(PowerState::Unplugged);
    d.push_bytes(b"ac_adapter 1");
    assert_eq!(d.next_event(), Ok(None));
    assert_eq!(d.finish(), Ok(Some(Event::Plugged)));
    assert_eq!(d.finish(), Ok(None));
}

#[test]
fn end_of_stream_drains_complete_records_first() {
    let mut d = AcPlugDecoder::new(PowerState::Plugged);
    d.push_bytes(b"ac_adapter 0\nac_adapter 1");
    assert_eq!(d.finish(), Ok(Some(Event::Unplugged)));
    assert_eq!(d.finish(), Ok(Some(Event::Plugged)));
    assert_eq!(d.finish(), Ok(None));
}

#[test]
fn invalid_utf8_record_is_an_error() {
    let mut d = AcPlugDecoder::new(PowerState::Unplugged);
    d.push_bytes(b"ac_adapter \xff\nac_adapter 1\n");
    assert_eq!(d.next_event(), Err(DecodeError::InvalidUtf8));
    assert_eq!(d.current_state(), PowerState::Unplugged);
    assert_eq!(d.next_event(), Ok(Some(Event::Plugged)));
}

#[test]
fn invalid_utf8_tail_at_end_is_an_error() {
    let mut d = AcPlugDecoder::new(PowerState::Unplugged);
    d.push_bytes(b"\xc3");
    assert_eq!(d.finish(), Err(DecodeError::InvalidUtf8));
    assert_eq!(d.finish(), Ok(None));
}

#[test]
fn multibyte_text_in_a_record() {
    let mut d = AcPlugDecoder::new(PowerState::Unplugged);
    d.push_bytes("ac_adapter é 1\n".as_bytes());
    assert_eq!(d.next_event(), Ok(Some(Event::Plugged)));
}
