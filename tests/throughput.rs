use download_engine::engine::DownloadEngine;
use download_engine::throughput::{rate_string, throughput_string};

#[test]
fn format_speed_picks_the_unit() {
    assert_eq!(DownloadEngine::format_speed(500), "500.00 B/s");
    assert_eq!(DownloadEngine::format_speed(2048), "2.00 KB/s");
    assert_eq!(DownloadEngine::format_speed(5_242_880), "5.00 MB/s");
}

#[test]
fn format_speed_boundaries_use_the_lower_unit() {
    assert_eq!(DownloadEngine::format_speed(1024), "1024.00 B/s");
    assert_eq!(DownloadEngine::format_speed(1_048_576), "1024.00 KB/s");
    assert_eq!(DownloadEngine::format_speed(1025), "1.00 KB/s");
    assert_eq!(DownloadEngine::format_speed(0), "0.00 B/s");
}

#[test]
fn format_speed_rounds_to_two_decimals() {
    assert_eq!(DownloadEngine::format_speed(1536), "1.50 KB/s");
    assert_eq!(DownloadEngine::format_speed(1152), "1.12 KB/s");
    assert_eq!(DownloadEngine::format_speed(1_572_864), "1.50 MB/s");
    assert_eq!(DownloadEngine::format_speed(u64::MAX), "17592186044416.00 MB/s");
}

#[test]
fn rate_of_a_fraction() {
    assert_eq!(rate_string(1000, 3), "333.33 B/s");
    assert_eq!(rate_string(2000, 3), "666.67 B/s");
}

#[test]
fn throughput_over_elapsed_time() {
    assert_eq!(throughput_string(4096, 0), "0 B/s");
    assert_eq!(throughput_string(2048, 1000), "2.00 KB/s");
    assert_eq!(throughput_string(1000, 2000), "500.00 B/s");
}

#[test]
fn speed_message_prefixes_the_rate() {
    assert_eq!(DownloadEngine::speed_message(0, 0), "Speed: 0 B/s");
    assert_eq!(DownloadEngine::speed_message(10_485_760, 2000), "Speed: 5.00 MB/s");
}
