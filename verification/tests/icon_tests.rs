use appshell::icon::unpack_icon;

#[test]
fn unpacks_compressed_icon_asset() {
    // A 2 x 3 icon: 24 RGBA bytes, then width-1 and height-1.
    let rgba: Vec<u8> = (0..24u8).collect();
    let mut data = rgba.clone();
    data.push(1); // width 2
    data.push(2); // height 3
    let packed = lz4_flex::compress_prepend_size(&data);
    assert_ne!(packed, data);
    let icon = unpack_icon(&packed).expect("valid asset must unpack");
    assert_eq!(icon.width, 2);
    assert_eq!(icon.height, 3);
    assert_eq!(icon.rgba, rgba);
}

#[test]
fn unpacks_single_pixel_asset_from_raw_block() {
    // A 1 x 1 white icon as a hand-written size-prepended LZ4 block:
    // little-endian length 6, a token for six literals, four pixel
    // bytes, then width-1 and height-1.
    let packed = [6u8, 0, 0, 0, 0x60, 0xFF, 0xFF, 0xFF, 0xFF, 0x00, 0x00];
    let icon = unpack_icon(&packed).expect("valid asset must unpack");
    assert_eq!(icon.width, 1);
    assert_eq!(icon.height, 1);
    assert_eq!(icon.rgba, vec![0xFF; 4]);
}

#[test]
fn rejects_wrong_pixel_count() {
    // 5 pixel bytes cannot be a 2 x 3 RGBA grid.
    let mut data = vec![9u8; 5];
    data.push(1);
    data.push(2);
    let packed = lz4_flex::compress_prepend_size(&data);
    assert!(unpack_icon(&packed).is_none());
}

#[test]
fn rejects_undecompressable_asset() {
    // Size prefix of 8 bytes, then a block no decoder accepts.
    let garbage = vec![8u8, 0, 0, 0, 0xFF, 0x13];
    assert!(unpack_icon(&garbage).is_none());
}

#[test]
fn rejects_asset_shorter_than_dimensions() {
    let data = vec![5u8];
    let packed = lz4_flex::compress_prepend_size(&data);
    assert!(unpack_icon(&packed).is_none());
}
