use aetherment::tex::{DdsFormat, Format, Header, Pixel, Tex};

fn header() -> Header {
    Header {
        flags: 0x0080_0000,
        format: Format::Argb8,
        width: 2,
        height: 1,
        depths: 1,
        mip_levels: 1,
        lod_offsets: [0, 1, 2],
        mip_offsets: [80, 0, 0, 0, 0, 0, 0, 0, 0, 0, 0, 0, 7],
    }
}

#[test]
fn format_codes_go_both_ways() {
    assert_eq!(Format::Argb8.code(), 0x1450);
    assert_eq!(Format::from_code(0x1450), Some(Format::Argb8));
    assert_eq!(Format::from_code(0x3431), Some(Format::Dxt5));
    assert_eq!(Format::from_code(0x1234), None);
    for f in [Format::Unknown, Format::L8, Format::Dxt1, Format::Shadow24, Format::Rgba8] {
        assert_eq!(Format::from_code(f.code()), Some(f));
    }
}

#[test]
fn format_maps_to_dds_and_back() {
    assert_eq!(DdsFormat::from(Format::Argb8), DdsFormat::A8R8G8B8);
    assert_eq!(Format::from(DdsFormat::A8R8G8B8), Format::Argb8);
    assert_eq!(Format::from(DdsFormat::from(Format::Dxt3)), Format::Dxt3);
}

#[test]
fn header_is_80_bytes_little_endian() {
    let b = header().write();
    assert_eq!(b.len(), 80);
    assert_eq!(&b[0..4], &[0x00, 0x00, 0x80, 0x00]);
    assert_eq!(&b[4..8], &[0x50, 0x14, 0x00, 0x00]);
    assert_eq!(&b[8..10], &[2, 0]);
    assert_eq!(&b[76..80], &[7, 0, 0, 0]);
}

#[test]
fn header_written_then_read_is_the_same() {
    let h = header();
    let r = Header::read(&h.write()).unwrap();
    assert_eq!(r.flags, h.flags);
    assert_eq!(r.format, h.format);
    assert_eq!((r.width, r.height, r.depths, r.mip_levels), (2, 1, 1, 1));
    assert_eq!(r.lod_offsets, h.lod_offsets);
    assert_eq!(r.mip_offsets, h.mip_offsets);
}

#[test]
fn header_read_refuses_short_or_unknown() {
    let b = header().write();
    assert!(Header::read(&b[..79]).is_none());
    let mut bad = b.clone();
    bad[4] = 0x34;
    bad[5] = 0x12;
    assert!(Header::read(&bad).is_none());
}

#[test]
fn pixels_of_texture_data() {
    let t = Tex { header: header(), data: vec![1, 2, 3, 4, 5, 6, 7, 8, 9] };
    let p = t.as_pixels();
    assert_eq!(p.len(), 2);
    assert_eq!(p[1], Pixel { b: 5, g: 6, r: 7, a: 8 });
}

#[test]
fn png_bytes_swap_blue_and_red() {
    let t = Tex { header: header(), data: vec![1, 2, 3, 4, 5, 6, 7, 8, 9, 9] };
    assert_eq!(t.png_rgba(), vec![3, 2, 1, 4, 7, 6, 5, 8]);
}
