use hp::driver::{Action, Connection, Event};
use hp::request::{get_request, AUTHORITY, GET, HTTPS, METHOD, PATH, SCHEME};

fn pair(name: &[u8], value: &[u8]) -> (Vec<u8>, Vec<u8>) {
    (name.to_vec(), value.to_vec())
}

#[test]
fn names_and_values_of_the_pseudo_headers() {
    assert_eq!(&METHOD[..], &b":method"[..]);
    assert_eq!(&GET[..], &b"GET"[..]);
    assert_eq!(&PATH[..], &b":path"[..]);
    assert_eq!(&SCHEME[..], &b":scheme"[..]);
    assert_eq!(&HTTPS[..], &b"https"[..]);
    assert_eq!(&AUTHORITY[..], &b":authority"[..]);
}

#[test]
fn get_request_has_the_four_pseudo_headers_in_order() {
    assert_eq!(
        get_request(b"example.org", b"/", Vec::new()),
        vec![
            pair(b":method", b"GET"),
            pair(b":path", b"/"),
            pair(b":scheme", b"https"),
            pair(b":authority", b"example.org"),
        ]
    );
}

#[test]
fn other_headers_follow_the_pseudo_headers() {
    let more = vec![pair(b"user-agent", b"test"), pair(b"accept", b"*/*")];
    let headers = get_request(b"localhost", b"/index.html", more.clone());
    assert_eq!(headers.len(), 6);
    assert_eq!(headers[1], pair(b":path", b"/index.html"));
    assert_eq!(headers[3], pair(b":authority", b"localhost"));
    assert_eq!(&headers[4..], &more[..]);
}

#[test]
fn get_request_goes_out_as_the_header_block() {
    let mut conn = Connection::new(get_request(b"example.org", b"/", Vec::new()));
    conn.step(Event::Start);
    conn.step(Event::Written);
    match conn.step(Event::Written) {
        Action::SendFrame(frame) => {
            assert_eq!(&frame.payload.0[..3], &[0x82, 0x84, 0x87]);
            let decoded = hpack::Decoder::new().decode(&frame.payload.0).unwrap();
            assert_eq!(decoded, get_request(b"example.org", b"/", Vec::new()));
        }
        other => panic!("no request frame: {:?}", other),
    }
}
