use aeco_launcher::error::FailureKind;
use aeco_launcher::message::{Fraction, PatchMessage};
use aeco_launcher::transfer::{
    buffer_capacity, byte_string, compose_download_message, compose_extraction_message,
    download_message, extraction_message, fraction_of, response_accepted, Transfer,
};

#[test]
fn bytes_are_written_for_a_reader() {
    assert_eq!(byte_string(0), "0 B");
    assert_eq!(byte_string(512), "512 B");
    assert_eq!(byte_string(1024), "1024 B");
    assert_eq!(byte_string(1025), "1.00 KiB");
    assert_eq!(byte_string(2048), "2.00 KiB");
    assert_eq!(byte_string(1572864), "1.50 MiB");
    assert_eq!(byte_string(5 * 1024 * 1024 * 1024), "5.00 GiB");
}

#[test]
fn only_codes_from_200_to_299_are_a_success() {
    assert!(response_accepted(200));
    assert!(response_accepted(204));
    assert!(response_accepted(299));
    assert!(!response_accepted(199));
    assert!(!response_accepted(300));
    assert!(!response_accepted(404));
    assert!(!response_accepted(500));
    assert!(!response_accepted(0));
}

#[test]
fn the_buffer_is_sized_by_the_declared_length() {
    assert_eq!(buffer_capacity(Some(4096)), Ok(4096));
    assert_eq!(buffer_capacity(Some(0)), Ok(0));
    assert_eq!(buffer_capacity(None), Ok(0));
}

#[test]
fn a_length_beyond_memory_is_refused() {
    if (usize::MAX as u128) < (u64::MAX as u128) {
        let failure = buffer_capacity(Some(u64::MAX)).expect_err("too large");
        assert_eq!(failure.kind, FailureKind::Network);
        assert_eq!(failure.message, "File to download is too large to load into memory");
    } else {
        assert_eq!(buffer_capacity(Some(u64::MAX)), Ok(usize::MAX));
    }
}

#[test]
fn a_transfer_counts_what_arrives() {
    let mut transfer = Transfer::begin(Some(10));
    assert_eq!(transfer, Transfer { downloaded: 0, total: Some(10) });
    assert!(!transfer.is_complete());
    assert_eq!(transfer.record(4), (4, Some(10)));
    assert_eq!(transfer.record(0), (4, Some(10)));
    assert!(!transfer.is_complete());
    assert_eq!(transfer.record(6), (10, Some(10)));
    assert!(transfer.is_complete());
}

#[test]
fn a_transfer_without_a_declared_length_never_counts_as_complete() {
    let mut transfer = Transfer::begin(None);
    assert_eq!(transfer.record(100), (100, None));
    assert_eq!(transfer.record(1), (101, None));
    assert!(!transfer.is_complete());
}

#[test]
fn a_chunk_fits_unless_the_count_would_overflow() {
    let transfer = Transfer { downloaded: u64::MAX - 5, total: None };
    assert!(transfer.fits(5));
    assert!(transfer.fits(0));
    assert!(!transfer.fits(6));
}

#[test]
fn the_fraction_of_a_download() {
    assert_eq!(fraction_of(0, Some(100)), Fraction { done: 0, of: 100 });
    assert_eq!(fraction_of(25, Some(100)), Fraction { done: 25, of: 100 });
    assert_eq!(fraction_of(100, Some(100)), Fraction { done: 100, of: 100 });
    assert_eq!(fraction_of(150, Some(100)), Fraction { done: 100, of: 100 });
    assert_eq!(fraction_of(0, Some(0)), Fraction { done: 0, of: 0 });
    assert_eq!(fraction_of(0, None), Fraction { done: 1, of: 1 });
    assert_eq!(fraction_of(12345, None), Fraction { done: 1, of: 1 });
}

#[test]
fn the_message_of_a_download_with_a_declared_length() {
    assert_eq!(
        download_message("Downloading base game", 512, Some(2048)),
        PatchMessage::Downloading(
            "Downloading base game (512 B / 2.00 KiB)".to_string(),
            Fraction { done: 512, of: 2048 },
        )
    );
    assert_eq!(
        download_message("Downloading patch info", 4096, Some(2048)),
        PatchMessage::Downloading(
            "Downloading patch info (4.00 KiB / 2.00 KiB)".to_string(),
            Fraction { done: 2048, of: 2048 },
        )
    );
}

#[test]
fn the_message_of_a_download_without_a_declared_length() {
    assert_eq!(
        download_message("Downloading patch info", 3 * 1024 * 1024, None),
        PatchMessage::Downloading(
            "Downloading patch info (3.00 MiB)".to_string(),
            Fraction { done: 1, of: 1 },
        )
    );
}

#[test]
fn a_message_is_composed_of_its_parts() {
    assert_eq!(
        compose_download_message("What", "1 B", Some("2 B"), Fraction { done: 1, of: 2 }),
        PatchMessage::Downloading("What (1 B / 2 B)".to_string(), Fraction { done: 1, of: 2 })
    );
    assert_eq!(
        compose_download_message("What", "1 B", None, Fraction { done: 1, of: 1 }),
        PatchMessage::Downloading("What (1 B)".to_string(), Fraction { done: 1, of: 1 })
    );
    assert_eq!(
        compose_extraction_message(2, 10, "1 B", "9 B", Fraction { done: 1, of: 9 }),
        PatchMessage::Downloading(
            "Extracting file 2 of 10 (1 B / 9 B)".to_string(),
            Fraction { done: 1, of: 9 },
        )
    );
}

#[test]
fn the_message_of_the_unpacking() {
    assert_eq!(
        extraction_message(3, 12, 2048, 1572864),
        PatchMessage::Downloading(
            "Extracting file 3 of 12 (2.00 KiB / 1.50 MiB)".to_string(),
            Fraction { done: 2048, of: 1572864 },
        )
    );
    assert_eq!(
        extraction_message(1, 1, 0, 0),
        PatchMessage::Downloading(
            "Extracting file 1 of 1 (0 B / 0 B)".to_string(),
            Fraction { done: 0, of: 0 },
        )
    );
}
