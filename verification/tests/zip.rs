use philomena::zip::{open_writer, Action, Atom, Event, Request, WriterResource};
use std::io::{Cursor, Read, Write};

type MemoryWriter = zip::ZipWriter<Cursor<Vec<u8>>>;

/// One call of the host on a handle: asks, calls the underlying writer where that is
/// called for, and reports.
fn call(
    resource: &mut WriterResource,
    writer: &mut Option<MemoryWriter>,
    archive: &mut Option<Vec<u8>>,
    request: Request,
    name: &str,
    data: &[u8],
) -> Atom {
    match resource.step(Event::Asked(request)) {
        Action::Reply(atom) => return atom,
        Action::Perform(asked) => assert_eq!(asked, request),
    }
    let done = match request {
        Request::StartFile => {
            let options = zip::write::SimpleFileOptions::default()
                .compression_method(zip::CompressionMethod::Deflated);
            writer.as_mut().unwrap().start_file(name, options).is_ok()
        }
        Request::Write => writer.as_mut().unwrap().write_all(data).is_ok(),
        Request::Finish => match writer.take().unwrap().finish() {
            Ok(cursor) => {
                *archive = Some(cursor.into_inner());
                true
            }
            Err(_) => false,
        },
    };
    let event = if done { Event::Done(request) } else { Event::Failed(request) };
    match resource.step(event) {
        Action::Reply(atom) => atom,
        Action::Perform(_) => panic!("a report is answered with a reply"),
    }
}

fn fresh() -> (WriterResource, Option<MemoryWriter>, Option<Vec<u8>>) {
    let resource = open_writer(true).ok().unwrap();
    (resource, Some(zip::ZipWriter::new(Cursor::new(Vec::new()))), None)
}

#[test]
fn failed_creation_gives_no_handle() {
    assert!(matches!(open_writer(false), Err(Atom::Error)));
    let resource = open_writer(true).ok().unwrap();
    assert!(!resource.is_finished());
    assert!(!resource.in_entry());
}

#[test]
fn one_entry_comes_back_from_the_archive() {
    let (mut resource, mut writer, mut archive) = fresh();
    assert_eq!(call(&mut resource, &mut writer, &mut archive, Request::StartFile, "a.txt", b""), Atom::Okay);
    assert!(resource.in_entry());
    assert_eq!(call(&mut resource, &mut writer, &mut archive, Request::Write, "", b"hi"), Atom::Okay);
    assert_eq!(call(&mut resource, &mut writer, &mut archive, Request::Finish, "", b""), Atom::Okay);
    assert!(resource.is_finished());

    let mut reader = zip::ZipArchive::new(Cursor::new(archive.unwrap())).unwrap();
    assert_eq!(reader.len(), 1);
    let mut entry = reader.by_index(0).unwrap();
    assert_eq!(entry.name().unwrap(), "a.txt");
    assert_eq!(entry.size(), 2);
    let mut content = String::new();
    entry.read_to_string(&mut content).unwrap();
    assert_eq!(content, "hi");
}

#[test]
fn second_finish_is_an_error_and_leaves_the_archive_alone() {
    let (mut resource, mut writer, mut archive) = fresh();
    assert_eq!(call(&mut resource, &mut writer, &mut archive, Request::StartFile, "a.txt", b""), Atom::Okay);
    assert_eq!(call(&mut resource, &mut writer, &mut archive, Request::Write, "", b"hi"), Atom::Okay);
    assert_eq!(call(&mut resource, &mut writer, &mut archive, Request::Finish, "", b""), Atom::Okay);
    let first = archive.clone().unwrap();
    assert_eq!(call(&mut resource, &mut writer, &mut archive, Request::Finish, "", b""), Atom::Error);
    assert!(resource.is_finished());
    assert_eq!(archive, Some(first.clone()));
    let reader = zip::ZipArchive::new(Cursor::new(first)).unwrap();
    assert_eq!(reader.len(), 1);
}

#[test]
fn write_before_any_entry_is_an_error_and_adds_none() {
    let (mut resource, mut writer, mut archive) = fresh();
    assert_eq!(resource.step(Event::Asked(Request::Write)), Action::Reply(Atom::Error));
    assert_eq!(call(&mut resource, &mut writer, &mut archive, Request::Write, "", b"hi"), Atom::Error);
    assert!(!resource.is_finished());
    assert!(!resource.in_entry());
    assert_eq!(call(&mut resource, &mut writer, &mut archive, Request::Finish, "", b""), Atom::Okay);
    let reader = zip::ZipArchive::new(Cursor::new(archive.unwrap())).unwrap();
    assert_eq!(reader.len(), 0);
}

#[test]
fn finished_handle_refuses_everything() {
    let (mut resource, mut writer, mut archive) = fresh();
    assert_eq!(call(&mut resource, &mut writer, &mut archive, Request::Finish, "", b""), Atom::Okay);
    for request in [Request::StartFile, Request::Write, Request::Finish] {
        assert_eq!(resource.step(Event::Asked(request)), Action::Reply(Atom::Error));
        assert_eq!(resource.step(Event::Done(request)), Action::Reply(Atom::Error));
        assert_eq!(resource.step(Event::Failed(request)), Action::Reply(Atom::Error));
        assert!(resource.is_finished());
        assert!(!resource.in_entry());
    }
}

#[test]
fn failed_start_leaves_no_entry_to_write_to() {
    let mut resource = open_writer(true).ok().unwrap();
    assert_eq!(resource.step(Event::Asked(Request::StartFile)), Action::Perform(Request::StartFile));
    assert_eq!(resource.step(Event::Done(Request::StartFile)), Action::Reply(Atom::Okay));
    assert!(resource.in_entry());
    assert_eq!(resource.step(Event::Asked(Request::StartFile)), Action::Perform(Request::StartFile));
    assert_eq!(resource.step(Event::Failed(Request::StartFile)), Action::Reply(Atom::Error));
    assert!(!resource.in_entry());
    assert_eq!(resource.step(Event::Asked(Request::Write)), Action::Reply(Atom::Error));
}

#[test]
fn failed_write_keeps_the_entry_and_failed_finish_still_finishes() {
    let mut resource = open_writer(true).ok().unwrap();
    assert_eq!(resource.step(Event::Done(Request::StartFile)), Action::Reply(Atom::Okay));
    assert_eq!(resource.step(Event::Asked(Request::Write)), Action::Perform(Request::Write));
    assert_eq!(resource.step(Event::Failed(Request::Write)), Action::Reply(Atom::Error));
    assert!(resource.in_entry());
    assert_eq!(resource.step(Event::Done(Request::Write)), Action::Reply(Atom::Okay));
    assert_eq!(resource.step(Event::Asked(Request::Finish)), Action::Perform(Request::Finish));
    assert_eq!(resource.step(Event::Failed(Request::Finish)), Action::Reply(Atom::Error));
    assert!(resource.is_finished());
    assert_eq!(resource.step(Event::Asked(Request::Finish)), Action::Reply(Atom::Error));
}

#[test]
fn entries_come_out_in_the_order_they_were_begun() {
    let (mut resource, mut writer, mut archive) = fresh();
    for (name, data) in [("b.txt", "second letter"), ("a.txt", "first letter")] {
        assert_eq!(call(&mut resource, &mut writer, &mut archive, Request::StartFile, name, b""), Atom::Okay);
        assert_eq!(call(&mut resource, &mut writer, &mut archive, Request::Write, "", data.as_bytes()), Atom::Okay);
    }
    assert_eq!(call(&mut resource, &mut writer, &mut archive, Request::Finish, "", b""), Atom::Okay);
    let mut reader = zip::ZipArchive::new(Cursor::new(archive.unwrap())).unwrap();
    assert_eq!(reader.len(), 2);
    assert_eq!(reader.by_index(0).unwrap().name().unwrap(), "b.txt");
    assert_eq!(reader.by_index(1).unwrap().name().unwrap(), "a.txt");
}
