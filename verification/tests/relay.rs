use document_export::entry::Entry;
use document_export::layout::FileStamp;
use document_export::payload::text_entry;
use document_export::data::Document;
use document_export::route::write_archive;

fn file_date_time(stamp: FileStamp) -> zipit::FileDateTime {
    match stamp {
        FileStamp::Zero => zipit::FileDateTime::Zero,
        FileStamp::Custom { year, month, day, hour, minute, second } => {
            zipit::FileDateTime::Custom { year, month, day, hour, minute, second }
        }
    }
}

/// Streams the entries through a pipe of the given capacity, as a server
/// would, and collects what the reading end receives.
fn relayed(entries: Vec<Entry>, capacity: usize) -> Vec<u8> {
    let runtime = tokio::runtime::Builder::new_current_thread().build().unwrap();
    runtime.block_on(async move {
        let (wx, mut rx) = tokio::io::duplex(capacity);
        let producer = tokio::spawn(async move {
            let mut archive = zipit::Archive::new(wx);
            for entry in entries {
                let mut cursor = std::io::Cursor::new(entry.payload);
                archive
                    .append(entry.name, file_date_time(entry.modified), &mut cursor)
                    .await
                    .unwrap();
            }
            archive.finalize().await.unwrap();
        });
        let mut received = Vec::new();
        tokio::io::AsyncReadExt::read_to_end(&mut rx, &mut received).await.unwrap();
        producer.await.unwrap();
        received
    })
}

fn stamped_entries() -> Vec<Entry> {
    let stamp =
        FileStamp::Custom { year: 2023, month: 11, day: 30, hour: 23, minute: 59, second: 59 };
    (0..20)
        .map(|n| {
            let doc = Document { id: format!("item-{n}"), name: format!("Name {n}") };
            text_entry(&doc, stamp)
        })
        .collect()
}

#[test]
fn relay_of_one_byte_yields_the_same_container() {
    let items: Vec<Option<Entry>> = stamped_entries().into_iter().map(Some).collect();
    let in_memory = write_archive(&items).unwrap();
    assert_eq!(relayed(stamped_entries(), 1), in_memory);
    assert_eq!(relayed(stamped_entries(), 4096), in_memory);
    let archive = zip::ZipArchive::new(std::io::Cursor::new(in_memory)).unwrap();
    assert_eq!(archive.len(), 20);
}
