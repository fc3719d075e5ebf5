use image::GenericImageView;
use image_ingest::error::IngestError;
use image_ingest::local::{LocalAction, LocalEvent, LocalUpload};
use image_ingest::storage::StorageLayout;
use image_ingest::thumbnail::Picture;

fn decoded(data: &[u8]) -> Option<Picture> {
    image::load_from_memory(data).ok().map(Picture::from_image)
}

fn png_bytes(width: u32, height: u32) -> Vec<u8> {
    let img = image::DynamicImage::ImageLuma8(image::GrayImage::new(width, height));
    let mut out = Vec::new();
    img.write_to(&mut out, image::ImageOutputFormat::Png).unwrap();
    out
}

fn padded(mut bytes: Vec<u8>, len: usize) -> Vec<u8> {
    assert!(bytes.len() <= len, "image takes {} bytes", bytes.len());
    bytes.resize(len, 0);
    bytes
}

struct Part {
    filename: Option<String>,
    chunks: Vec<Vec<u8>>,
    thumb: usize,
}

fn part(name: &str, bytes: &[u8], chunk: usize, thumb: usize) -> Part {
    Part {
        filename: Some(name.to_string()),
        chunks: bytes.chunks(chunk).map(|c| c.to_vec()).collect(),
        thumb,
    }
}

#[derive(Debug, PartialEq)]
enum Outcome {
    Responded(String),
    Aborted(IngestError),
}

/// Plays the driver: feeds the parts to the machine and notes what it is asked to do.
fn drive(parts: Vec<Part>, log: &mut Vec<String>) -> Outcome {
    let mut machine = LocalUpload::new(StorageLayout::standard());
    let mut parts = parts.into_iter();
    let mut chunks: Vec<Vec<u8>> = Vec::new();
    let mut thumb = 0;
    let mut event = LocalEvent::EndOfStream;
    if let Some(p) = parts.next() {
        event = LocalEvent::Part { filename: p.filename };
        chunks = p.chunks;
        chunks.reverse();
        thumb = p.thumb;
    }
    loop {
        let (next, action) = machine.step(event);
        machine = next;
        let action = match action {
            Some(a) => a,
            None => panic!("the machine did not take the event"),
        };
        match action {
            LocalAction::ReadPart => {
                log.push("read part".to_string());
                event = match parts.next() {
                    Some(p) => {
                        chunks = p.chunks;
                        chunks.reverse();
                        thumb = p.thumb;
                        LocalEvent::Part { filename: p.filename }
                    }
                    None => LocalEvent::EndOfStream,
                };
            }
            LocalAction::CreateFile { path } => {
                log.push(format!("create {}", path));
                event = match chunks.pop() {
                    Some(data) => LocalEvent::Chunk { data },
                    None => LocalEvent::EndOfPart,
                };
            }
            LocalAction::WriteChunk { data } => {
                log.push(format!("write {}", data.len()));
                event = match chunks.pop() {
                    Some(data) => LocalEvent::Chunk { data },
                    None => LocalEvent::EndOfPart,
                };
            }
            LocalAction::Decode { data } => {
                log.push(format!("decode {}", data.len()));
                event = LocalEvent::Decoded { picture: decoded(&data) };
            }
            LocalAction::SaveThumbnail { path, picture } => {
                let (w, h) = (picture.width(), picture.height());
                assert_eq!(picture.into_image().dimensions(), (w, h));
                log.push(format!("save {} {}x{}", path, w, h));
                event = LocalEvent::ThumbnailStored { size: thumb };
            }
            LocalAction::Respond { body } => {
                assert!(machine.is_over());
                return Outcome::Responded(body);
            }
            LocalAction::Abort { error } => {
                assert!(machine.is_over());
                return Outcome::Aborted(error);
            }
        }
    }
}

#[test]
fn two_parts_are_stored_and_reported() {
    let a = padded(png_bytes(300, 200), 500);
    let b = padded(png_bytes(50, 50), 200);
    let mut log = Vec::new();
    let outcome = drive(vec![part("a.png", &a, 128, 321), part("b.jpg", &b, 200, 77)], &mut log);
    assert_eq!(
        outcome,
        Outcome::Responded(
            "{ \"a.png\": { \"full\": 500, \"thumb\": 321 }, \"b.jpg\": { \"full\": 200, \"thumb\": 77 } }"
                .to_string()
        )
    );
    assert_eq!(
        log,
        vec![
            "create storage/image/fullsize/a.png",
            "write 128",
            "write 128",
            "write 128",
            "write 116",
            "decode 500",
            "save storage/image/thumbnail/a.png 100x66",
            "read part",
            "create storage/image/fullsize/b.jpg",
            "write 200",
            "decode 200",
            "save storage/image/thumbnail/b.jpg 50x50",
            "read part",
        ]
    );
}

#[test]
fn every_part_is_reported_with_its_byte_count() {
    let sizes = [(120u32, 80u32, 400usize), (10, 10, 150), (640, 480, 2000), (100, 100, 700)];
    let mut parts = Vec::new();
    let mut expected = String::from("{ ");
    for (i, &(w, h, len)) in sizes.iter().enumerate() {
        let bytes = padded(png_bytes(w, h), len);
        let name = format!("picture-{}.png", i);
        if i > 0 {
            expected.push_str(", ");
        }
        expected.push_str(&format!(
            "\"{}\": {{ \"full\": {}, \"thumb\": {} }}",
            name,
            len,
            1000 + i
        ));
        parts.push(part(&name, &bytes, 64 + i, 1000 + i));
    }
    expected.push_str(" }");
    let mut log = Vec::new();
    assert_eq!(drive(parts, &mut log), Outcome::Responded(expected));
    assert_eq!(log.iter().filter(|l| l.starts_with("save ")).count(), 4);
}

#[test]
fn chunks_arrive_whole_or_byte_by_byte() {
    let bytes = padded(png_bytes(30, 20), 300);
    for &chunk in [1usize, 7, 299, 300, 4096].iter() {
        let mut log = Vec::new();
        let outcome = drive(vec![part("p.png", &bytes, chunk, 5)], &mut log);
        assert_eq!(
            outcome,
            Outcome::Responded("{ \"p.png\": { \"full\": 300, \"thumb\": 5 } }".to_string())
        );
        let written: usize = log
            .iter()
            .filter_map(|l| l.strip_prefix("write "))
            .map(|n| n.parse::<usize>().unwrap())
            .sum();
        assert_eq!(written, 300);
    }
}

#[test]
fn empty_first_filename_gives_an_empty_object() {
    let mut log = Vec::new();
    let sentinel = Part { filename: Some(String::new()), chunks: vec![vec![1, 2, 3]], thumb: 0 };
    assert_eq!(drive(vec![sentinel], &mut log), Outcome::Responded("{}".to_string()));
    assert!(log.is_empty());
}

#[test]
fn request_without_parts_gives_an_empty_object() {
    let mut log = Vec::new();
    assert_eq!(drive(Vec::new(), &mut log), Outcome::Responded("{}".to_string()));
}

#[test]
fn empty_filename_ends_the_request_early() {
    let a = png_bytes(20, 20);
    let sentinel = Part { filename: Some(String::new()), chunks: Vec::new(), thumb: 0 };
    let mut log = Vec::new();
    let outcome = drive(vec![part("a.png", &a, 50, 9), sentinel, part("c.png", &a, 50, 9)], &mut log);
    assert_eq!(
        outcome,
        Outcome::Responded(format!("{{ \"a.png\": {{ \"full\": {}, \"thumb\": 9 }} }}", a.len()))
    );
    assert!(!log.iter().any(|l| l.contains("c.png")));
}

#[test]
fn part_without_filename_aborts_the_request() {
    let a = png_bytes(20, 20);
    let nameless = Part { filename: None, chunks: vec![a.clone()], thumb: 0 };
    let mut log = Vec::new();
    let outcome = drive(vec![part("a.png", &a, 50, 9), nameless], &mut log);
    assert_eq!(outcome, Outcome::Aborted(IngestError::InvalidPart));
}

#[test]
fn text_disguised_as_an_image_aborts_the_request() {
    let a = png_bytes(20, 20);
    let text = b"this is a text file with the name of a picture".to_vec();
    let mut log = Vec::new();
    let outcome = drive(vec![part("a.png", &a, 50, 9), part("notes.png", &text, 10, 9)], &mut log);
    assert_eq!(outcome, Outcome::Aborted(IngestError::ImageDecode));
    assert!(!log.iter().any(|l| l.starts_with("save storage/image/thumbnail/notes.png")));
}

#[test]
fn part_without_bytes_aborts_the_request() {
    let empty = Part { filename: Some("empty.png".to_string()), chunks: Vec::new(), thumb: 0 };
    let mut log = Vec::new();
    assert_eq!(drive(vec![empty], &mut log), Outcome::Aborted(IngestError::ImageDecode));
    assert_eq!(log, vec!["create storage/image/fullsize/empty.png", "decode 0"]);
}

#[test]
fn local_same_name_twice_is_reported_once_with_the_later_sizes() {
    let first = padded(png_bytes(20, 20), 400);
    let second = padded(png_bytes(200, 100), 900);
    let mut log = Vec::new();
    let outcome = drive(vec![part("a.png", &first, 100, 11), part("a.png", &second, 100, 22)], &mut log);
    assert_eq!(
        outcome,
        Outcome::Responded("{ \"a.png\": { \"full\": 900, \"thumb\": 22 } }".to_string())
    );
    let created: Vec<&String> = log.iter().filter(|l| l.starts_with("create ")).collect();
    assert_eq!(created.len(), 2);
    assert_eq!(created[0], created[1]);
}

#[test]
fn local_failure_of_the_driver_aborts_from_every_running_state() {
    let machine = LocalUpload::new(StorageLayout::standard());
    let (machine, action) = machine.step(LocalEvent::IoFailed);
    assert!(matches!(action, Some(LocalAction::Abort { error: IngestError::Io })));
    assert!(machine.is_over());

    let machine = LocalUpload::new(StorageLayout::standard());
    let (machine, _) = machine.step(LocalEvent::Part { filename: Some("a.png".to_string()) });
    let (machine, action) = machine.step(LocalEvent::IoFailed);
    assert!(matches!(action, Some(LocalAction::Abort { error: IngestError::Io })));
    assert!(machine.is_over());

    let machine = LocalUpload::new(StorageLayout::standard());
    let (machine, _) = machine.step(LocalEvent::Part { filename: Some("a.png".to_string()) });
    let (machine, _) = machine.step(LocalEvent::Chunk { data: png_bytes(5, 5) });
    let (machine, action) = machine.step(LocalEvent::EndOfPart);
    assert!(matches!(action, Some(LocalAction::Decode { .. })));
    let (failed, action) = machine.step(LocalEvent::IoFailed);
    assert!(matches!(action, Some(LocalAction::Abort { error: IngestError::Io })));
    assert!(failed.is_over());

    let machine = LocalUpload::new(StorageLayout::standard());
    let (machine, _) = machine.step(LocalEvent::Part { filename: Some("a.png".to_string()) });
    let (machine, _) = machine.step(LocalEvent::Chunk { data: png_bytes(5, 5) });
    let (machine, _) = machine.step(LocalEvent::EndOfPart);
    let (machine, action) = machine.step(LocalEvent::Decoded { picture: decoded(&png_bytes(5, 5)) });
    assert!(matches!(action, Some(LocalAction::SaveThumbnail { .. })));
    let (machine, action) = machine.step(LocalEvent::IoFailed);
    assert!(matches!(action, Some(LocalAction::Abort { error: IngestError::Io })));
    assert!(machine.is_over());
    assert_eq!(machine.result().len(), 0);
}

#[test]
fn local_event_out_of_turn_is_not_taken() {
    let machine = LocalUpload::new(StorageLayout::standard());
    let (machine, action) = machine.step(LocalEvent::Chunk { data: vec![1, 2, 3] });
    assert!(action.is_none());
    let (machine, action) = machine.step(LocalEvent::EndOfPart);
    assert!(action.is_none());
    let (machine, action) = machine.step(LocalEvent::ThumbnailStored { size: 4 });
    assert!(action.is_none());
    assert!(!machine.is_over());
    let (machine, action) = machine.step(LocalEvent::Part { filename: Some("a.png".to_string()) });
    assert!(matches!(action, Some(LocalAction::CreateFile { .. })));
    let (machine, action) = machine.step(LocalEvent::EndOfStream);
    assert!(action.is_none());
    let (machine, action) = machine.step(LocalEvent::Part { filename: None });
    assert!(action.is_none());
    let (machine, action) = machine.step(LocalEvent::Chunk { data: png_bytes(7, 9) });
    assert!(matches!(action, Some(LocalAction::WriteChunk { .. })));
    let (machine, action) = machine.step(LocalEvent::Decoded { picture: None });
    assert!(action.is_none());
    let (machine, action) = machine.step(LocalEvent::EndOfPart);
    let data = match action {
        Some(LocalAction::Decode { data }) => data,
        _ => panic!("the bytes were not handed on"),
    };
    assert_eq!(data, png_bytes(7, 9));
    let (machine, action) = machine.step(LocalEvent::ThumbnailStored { size: 1 });
    assert!(action.is_none());
    let (machine, action) = machine.step(LocalEvent::Decoded { picture: decoded(&data) });
    match action {
        Some(LocalAction::SaveThumbnail { path, picture }) => {
            assert_eq!(path, "storage/image/thumbnail/a.png");
            assert_eq!((picture.width(), picture.height()), (7, 9));
        }
        _ => panic!("the thumbnail was not handed on"),
    }
    let (machine, action) = machine.step(LocalEvent::Chunk { data: vec![0] });
    assert!(action.is_none());
    let (machine, action) = machine.step(LocalEvent::ThumbnailStored { size: 31 });
    assert!(matches!(action, Some(LocalAction::ReadPart)));
    assert_eq!(machine.result().get("a.png"), Some((png_bytes(7, 9).len(), 31)));
}

#[test]
fn local_nothing_is_taken_once_the_request_is_over() {
    let machine = LocalUpload::new(StorageLayout::standard());
    let (machine, action) = machine.step(LocalEvent::EndOfStream);
    assert!(matches!(action, Some(LocalAction::Respond { .. })));
    let (machine, action) = machine.step(LocalEvent::Part { filename: Some("a.png".to_string()) });
    assert!(action.is_none());
    let (machine, action) = machine.step(LocalEvent::IoFailed);
    assert!(action.is_none());
    assert!(machine.is_over());

    let machine = LocalUpload::new(StorageLayout::standard());
    let (machine, action) = machine.step(LocalEvent::Part { filename: None });
    assert!(matches!(action, Some(LocalAction::Abort { error: IngestError::InvalidPart })));
    let (machine, action) = machine.step(LocalEvent::EndOfStream);
    assert!(action.is_none());
    let (_, action) = machine.step(LocalEvent::IoFailed);
    assert!(action.is_none());
}

#[test]
fn machine_follows_the_layout_it_was_given() {
    let layout = StorageLayout::new("full".to_string(), "thumb".to_string());
    let machine = LocalUpload::new(layout);
    let (machine, action) = machine.step(LocalEvent::Part { filename: Some("x.png".to_string()) });
    match action {
        Some(LocalAction::CreateFile { path }) => assert_eq!(path, "full/x.png"),
        _ => panic!("no file was asked for"),
    }
    let (machine, _) = machine.step(LocalEvent::Chunk { data: png_bytes(150, 150) });
    let (machine, _) = machine.step(LocalEvent::EndOfPart);
    let (_, action) = machine.step(LocalEvent::Decoded { picture: decoded(&png_bytes(150, 150)) });
    match action {
        Some(LocalAction::SaveThumbnail { path, picture }) => {
            assert_eq!(path, "thumb/x.png");
            assert_eq!((picture.width(), picture.height()), (100, 100));
        }
        _ => panic!("the thumbnail was not handed on"),
    }
}

#[test]
fn picture_without_pixels_aborts_the_request() {
    let machine = LocalUpload::new(StorageLayout::standard());
    let (machine, _) = machine.step(LocalEvent::Part { filename: Some("a.png".to_string()) });
    let (machine, _) = machine.step(LocalEvent::EndOfPart);
    let empty = image::DynamicImage::ImageLuma8(image::GrayImage::new(0, 3));
    let (machine, action) =
        machine.step(LocalEvent::Decoded { picture: Some(Picture::from_image(empty)) });
    assert!(matches!(action, Some(LocalAction::Abort { error: IngestError::ImageDecode })));
    assert!(machine.is_over());
}

#[test]
fn name_with_a_quote_is_reported_as_a_json_string() {
    let a = png_bytes(20, 20);
    let mut log = Vec::new();
    let outcome = drive(vec![part("a\"b.png", &a, 50, 9)], &mut log);
    assert_eq!(
        outcome,
        Outcome::Responded(format!(
            "{{ \"a\\\"b.png\": {{ \"full\": {}, \"thumb\": 9 }} }}",
            a.len()
        ))
    );
    assert!(log.contains(&"create storage/image/fullsize/a\"b.png".to_string()));
}
