use tgx::media::jpeg_header::{HEADER, HEIGHT_OFFSET, WIDTH_OFFSET};
use tgx::media::stripped::expand;

/// Height first: the payload is `[1, height, width]`, not `[1, w, h]`.
fn payload(h: u8, w: u8, body: &[u8]) -> Vec<u8> {
    let mut v = vec![1, h, w];
    v.extend_from_slice(body);
    v
}

#[test]
fn the_result_is_a_real_jpeg() {
    let out = expand(&payload(40, 30, &[0xaa; 100])).unwrap();
    assert_eq!(&out[..2], &[0xff, 0xd8], "SOI marker");
    assert_eq!(&out[out.len() - 2..], &[0xff, 0xd9], "EOI marker");
}

#[test]
fn exactly_two_header_bytes_are_patched() {
    let out = expand(&payload(0x28, 0x1e, &[])).unwrap();
    for i in 0..HEADER.len() {
        let expected = match i {
            HEIGHT_OFFSET => 0x28,
            WIDTH_OFFSET => 0x1e,
            _ => HEADER[i],
        };
        assert_eq!(out[i], expected, "header byte {i} changed unexpectedly");
    }
}

#[test]
fn the_payload_is_spliced_in_untouched() {
    let body: Vec<u8> = (0..=255u8).collect();
    let out = expand(&payload(1, 1, &body)).unwrap();
    let start = HEADER.len();
    assert_eq!(&out[start..start + body.len()], &body[..]);
}

#[test]
fn the_length_is_header_plus_payload_plus_footer() {
    let body = [0u8; 177];
    let out = expand(&payload(1, 1, &body)).unwrap();
    assert_eq!(out.len(), HEADER.len() + body.len() + 2);
}

#[test]
fn a_payload_it_cannot_expand_returns_none_not_the_input() {
    assert_eq!(expand(&[]), None);
    assert_eq!(expand(&[1, 2]), None, "too short");
    assert_eq!(expand(&[0, 40, 30, 1, 2, 3]), None, "wrong format marker");
    assert_eq!(expand(&[2, 40, 30, 1, 2, 3]), None, "wrong format marker");
}

#[test]
fn the_offsets_are_decoded_from_sof0_rather_than_named_by_hand() {
    assert_eq!(HEADER.len(), 623);
    let mut i = 2;
    let sof0 = loop {
        assert_eq!(HEADER[i], 0xff, "not on a marker boundary at {i}");
        if HEADER[i + 1] == 0xc0 {
            break i;
        }
        let len = usize::from(u16::from_be_bytes([HEADER[i + 2], HEADER[i + 3]]));
        i += 2 + len;
    };
    assert_eq!(sof0, 158);
    let (height_field, width_field) = (sof0 + 5, sof0 + 7);
    assert_eq!(HEIGHT_OFFSET, height_field + 1, "height's low byte");
    assert_eq!(WIDTH_OFFSET, width_field + 1, "width's low byte");
    assert_eq!((HEIGHT_OFFSET, WIDTH_OFFSET), (164, 166));
    assert_eq!(&HEADER[height_field..height_field + 2], &[0, 0]);
    assert_eq!(&HEADER[width_field..width_field + 2], &[0, 0]);
}

#[test]
fn the_second_payload_byte_is_the_height_not_the_width() {
    let out = expand(&payload(40, 30, &[0xaa; 100])).unwrap();
    assert_eq!(u16::from_be_bytes([out[163], out[164]]), 40, "height");
    assert_eq!(u16::from_be_bytes([out[165], out[166]]), 30, "width");
}

#[test]
fn the_header_walks_to_the_start_of_the_scan() {
    // Every segment after SOI chains by its length up to SOS, which ends the header.
    let mut i = 2;
    while HEADER[i + 1] != 0xda {
        let len = usize::from(u16::from_be_bytes([HEADER[i + 2], HEADER[i + 3]]));
        i += 2 + len;
    }
    let len = usize::from(u16::from_be_bytes([HEADER[i + 2], HEADER[i + 3]]));
    assert_eq!(i + 2 + len, HEADER.len());
}
