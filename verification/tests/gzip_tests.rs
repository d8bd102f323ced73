use std::io::Read;

use flate2::read::GzDecoder;
use rtcm2rinex::rinex::header::GlonassFreqChannel;
use rtcm2rinex::rinex::obs_types::glonass_channel_lines;
use rtcm2rinex::util::gzip::compressed_file;

#[test]
fn compressed_file_is_gzip_of_the_contents() {
    let contents = b"RINEX observation data\n".repeat(20);
    let (path, bytes) = compressed_file("out/station.obs", &contents).unwrap();
    assert_eq!(path, "out/station.obs.gz");
    // Gzip magic, deflate, no flags, modification time 0.
    assert_eq!(&bytes[..8], &[0x1f, 0x8b, 8, 0, 0, 0, 0, 0]);
    assert_ne!(bytes, contents);
    let mut decoded = Vec::new();
    GzDecoder::new(&bytes[..]).read_to_end(&mut decoded).unwrap();
    assert_eq!(decoded, contents);
    // The encoding depends on the bytes alone.
    let (_, again) = compressed_file("other", &contents).unwrap();
    assert_eq!(again, bytes);
}

#[test]
fn empty_file_compresses() {
    let (path, bytes) = compressed_file("", &[]).unwrap();
    assert_eq!(path, ".gz");
    let mut decoded = Vec::new();
    GzDecoder::new(&bytes[..]).read_to_end(&mut decoded).unwrap();
    assert!(decoded.is_empty());
}

#[test]
fn glonass_channel_block() {
    let label = "GLONASS SLOT / FRQ #";
    let two = vec![GlonassFreqChannel { prn: 1, freq_num: 1 }, GlonassFreqChannel { prn: 12, freq_num: -7 }];
    assert_eq!(glonass_channel_lines(&two), vec![format!("  2 R01 1 R12-7{}{:>56}", " ".repeat(30), label)]);
    let nine: Vec<GlonassFreqChannel> = (1..=9).map(|p| GlonassFreqChannel { prn: p, freq_num: 0 }).collect();
    let lines = glonass_channel_lines(&nine);
    let first: String = (1..=8).map(|p| format!(" R{:02}{:>2}", p, 0)).collect();
    assert_eq!(
        lines,
        vec![format!("  9{}{:>56}", first, label), format!("    R09 0{}{:>56}", " ".repeat(35), label)]
    );
}
