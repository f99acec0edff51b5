use eventstore_tcp::builder::Builder;
use eventstore_tcp::ContentType;

#[test]
fn build_new_event_for_write_events() {
    let _ = Builder::write_events()
        .stream_id("foobar")
        .new_event()
            .event_type("foo")
            .data(vec![0u8])
            .data_content_type(ContentType::Bytes)
        .done()
        .build_package(None, None);
}
