use figments::pixels::Rgb;
use figments::ws2812::SpiPixelWriter;

#[test]
fn a_byte_is_sent_as_four_patterns() {
    let mut data = [0u8; 8];
    {
        let mut writer = SpiPixelWriter::new(&mut data);
        writer.write_byte(0b00_01_10_11);
        assert_eq!(writer.idx, 4);
        writer.write_byte(0xff);
        assert_eq!(writer.idx, 8);
        writer.write_byte(0x00);
        assert_eq!(writer.idx, 8);
    }
    assert_eq!(
        data,
        [0b1000_1000, 0b1000_1110, 0b1110_1000, 0b1110_1110, 0xee, 0xee, 0xee, 0xee]
    );
}

#[test]
fn pixels_are_sent_green_first() {
    let mut data = [0u8; 12];
    let end = {
        let mut writer = SpiPixelWriter::new(&mut data);
        writer.write(&[Rgb::new(0xff, 0x00, 0x55)])
    };
    assert_eq!(end, 12);
    assert_eq!(
        data,
        [0x88, 0x88, 0x88, 0x88, 0xee, 0xee, 0xee, 0xee, 0x8e, 0x8e, 0x8e, 0x8e]
    );
}

#[test]
fn what_does_not_fit_is_left_out() {
    let mut data = [7u8; 10];
    let end = {
        let mut writer = SpiPixelWriter::new(&mut data);
        writer.write(&[Rgb::new(0, 0xff, 0), Rgb::new(1, 2, 3)])
    };
    assert_eq!(end, 8);
    assert_eq!(data, [0xee, 0xee, 0xee, 0xee, 0x88, 0x88, 0x88, 0x88, 7, 7]);
    let mut small = [7u8; 3];
    let end = {
        let mut writer = SpiPixelWriter::new(&mut small);
        writer.write(&[Rgb::new(1, 2, 3)])
    };
    assert_eq!(end, 0);
    assert_eq!(small, [7, 7, 7]);
}
