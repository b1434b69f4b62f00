use url_shortener::database::{
    connection_url, count_from_reply, count_query, entry_from_reply, prepare_content,
    sanitize_input, url_from_reply, ContentType, Count, EntrySubmission, Query, Reply,
    SubmittedEntry, SubmittedUrl, UrlSubmission,
};
use url_shortener::settings::DatabaseSettings;

#[test]
fn content_type_from_code() {
    assert_eq!(ContentType::from(0u8), ContentType::Url);
    assert_eq!(ContentType::from(1u8), ContentType::Pastebin);
    assert_eq!(ContentType::from(255u8), ContentType::All);
    assert_eq!(ContentType::from(2u8), ContentType::Unimplemented);
    assert_eq!(ContentType::from(3u8), ContentType::Unimplemented);
    assert_eq!(ContentType::from(254u8), ContentType::Unimplemented);
}

#[test]
fn code_from_content_type() {
    assert_eq!(u8::from(ContentType::Url), 0);
    assert_eq!(u8::from(ContentType::Pastebin), 1);
    assert_eq!(u8::from(ContentType::All), 255);
    assert_eq!(u8::from(ContentType::Unimplemented), 255);
}

#[test]
fn content_type_round_trips() {
    for t in [ContentType::Url, ContentType::Pastebin, ContentType::All] {
        assert_eq!(ContentType::from(u8::from(t)), t);
    }
    assert_eq!(ContentType::from(u8::from(ContentType::Unimplemented)), ContentType::All);
    for code in [0u8, 1, 255] {
        assert_eq!(u8::from(ContentType::from(code)), code);
    }
}

#[test]
fn count_conversions() {
    let c = Count::from(42u64);
    assert_eq!(c.count, 42);
    assert_eq!(c.content_type, ContentType::All);
    assert_eq!(u64::from(Count { count: 7, content_type: ContentType::Url }), 7);
}

fn unescape(s: &str) -> String {
    s.replace("''", "'")
}

#[test]
fn sanitize_doubles_quotes() {
    assert_eq!(sanitize_input("it's".to_string()), "it''s");
    assert_eq!(sanitize_input("''".to_string()), "''''");
    assert_eq!(sanitize_input("no quotes".to_string()), "no quotes");
    assert_eq!(sanitize_input("".to_string()), "");
    assert_eq!(sanitize_input("'; DROP TABLE urls; --".to_string()), "''; DROP TABLE urls; --");
}

#[test]
fn sanitize_reads_back() {
    for s in ["it's", "'", "''a'", "plain", "é'€"] {
        assert_eq!(unescape(&sanitize_input(s.to_string())), s);
        assert_eq!(sanitize_input(s.to_string()), s.replace("'", "''"));
    }
}

#[test]
fn prepared_content() {
    assert_eq!(prepare_content("o'neil.com".to_string(), ContentType::Url), "http://o''neil.com");
    assert_eq!(prepare_content("o'neil.com".to_string(), ContentType::Pastebin), "o''neil.com");
    assert_eq!(prepare_content("https://a.b".to_string(), ContentType::Url), "https://a.b");
}

#[test]
fn connection_url_is_built() {
    let settings = DatabaseSettings {
        host: "localhost".to_string(),
        port: 3306,
        username: "user".to_string(),
        password: "pw".to_string(),
        database: "short".to_string(),
    };
    assert_eq!(connection_url(&settings), "mysql://user:pw@localhost:3306/short");
}

#[test]
fn count_queries() {
    assert!(matches!(count_query(&ContentType::All), Query::CountEntries));
    assert!(matches!(count_query(&ContentType::Url), Query::CountEntriesOfType { content_type: 0 }));
    assert!(matches!(count_query(&ContentType::Pastebin), Query::CountEntriesOfType { content_type: 1 }));
    assert!(matches!(count_query(&ContentType::Unimplemented), Query::CountUnimplementedEntries));
}

#[test]
fn replies_to_results() {
    let c = count_from_reply(Reply::Number(5), ContentType::Url).unwrap();
    assert_eq!(c, Count { count: 5, content_type: ContentType::Url });
    assert!(count_from_reply(Reply::Missing, ContentType::Url).is_none());

    let u = url_from_reply(Reply::Text("http://a".to_string())).unwrap();
    assert_eq!(u.url, "http://a");
    assert!(u.success);
    let missing = url_from_reply(Reply::Missing).unwrap();
    assert_eq!(missing.url, "");
    assert!(!missing.success);
    assert!(url_from_reply(Reply::Written).is_none());

    let e = entry_from_reply(Reply::Entry { content: "x".to_string(), content_type: 1 }).unwrap();
    assert_eq!(e.content, "x");
    assert!(e.success);
    assert_eq!(e.content_type, ContentType::Pastebin);
    let e = entry_from_reply(Reply::Entry { content: "y".to_string(), content_type: 9 }).unwrap();
    assert_eq!(e.content_type, ContentType::Unimplemented);
    let missing = entry_from_reply(Reply::Missing).unwrap();
    assert_eq!(missing.content, "");
    assert!(!missing.success);
    assert_eq!(missing.content_type, ContentType::Unimplemented);
    assert!(entry_from_reply(Reply::Present).is_none());
}

/// A database held in memory: the URL table and the entry table.
#[derive(Default)]
struct Db {
    urls: Vec<(String, String)>,
    entries: Vec<(String, String, u8)>,
}

impl Db {
    fn run(&mut self, q: Query) -> Reply {
        match q {
            Query::CountUrls => Reply::Number(self.urls.len() as u64),
            Query::CountEntries => Reply::Number(self.entries.len() as u64),
            Query::CountEntriesOfType { content_type } => {
                Reply::Number(self.entries.iter().filter(|e| e.2 == content_type).count() as u64)
            }
            Query::CountUnimplementedEntries => Reply::Number(
                self.entries.iter().filter(|e| e.2 != 0 && e.2 != 1 && e.2 != 255).count() as u64,
            ),
            Query::FindUrl { shortened } => match self.urls.iter().find(|r| r.1 == shortened) {
                Some(r) => Reply::Text(r.0.clone()),
                None => Reply::Missing,
            },
            Query::FindUrlCode { shortened } => {
                if self.urls.iter().any(|r| r.1 == shortened) { Reply::Present } else { Reply::Missing }
            }
            Query::FindCodeForUrl { url } => match self.urls.iter().find(|r| r.0 == url) {
                Some(r) => Reply::Text(r.1.clone()),
                None => Reply::Missing,
            },
            Query::InsertUrl { url, shortened } => {
                self.urls.push((url, shortened));
                Reply::Written
            }
            Query::FindEntry { shortened } => match self.entries.iter().find(|r| r.1 == shortened) {
                Some(r) => Reply::Entry { content: r.0.clone(), content_type: r.2 },
                None => Reply::Missing,
            },
            Query::FindEntryCode { shortened } => {
                if self.entries.iter().any(|r| r.1 == shortened) { Reply::Present } else { Reply::Missing }
            }
            Query::InsertEntry { content, shortened, content_type } => {
                self.entries.push((content, shortened, content_type));
                Reply::Written
            }
        }
    }

    fn submit_url(&mut self, url: &str, shortened: &str) -> SubmittedUrl {
        let mut s = UrlSubmission::new(url.to_string(), shortened.to_string());
        let mut steps = 0;
        while let Some(q) = s.query() {
            let reply = self.run(q);
            s = s.advance(reply);
            steps += 1;
            assert!(steps <= 3);
        }
        s.outcome().unwrap()
    }

    fn submit_entry(&mut self, content: &str, t: ContentType) -> SubmittedEntry {
        let mut s = EntrySubmission::new(content.to_string(), t);
        let mut steps = 0;
        while let Some(q) = s.query() {
            let reply = self.run(q);
            s = s.advance(reply);
            steps += 1;
            assert!(steps <= 3);
        }
        s.outcome().unwrap()
    }
}

#[test]
fn url_submission_stores_new_url() {
    let mut db = Db::default();
    let r = db.submit_url("http://a.com", "1");
    assert_eq!(r.shortened, "1");
    assert!(r.success);
    assert_eq!(db.urls, vec![("http://a.com".to_string(), "1".to_string())]);
}

#[test]
fn url_submission_fails_on_taken_code() {
    let mut db = Db::default();
    db.submit_url("http://a.com", "1");
    let r = db.submit_url("http://b.com", "1");
    assert_eq!(r.shortened, "1");
    assert!(!r.success);
    assert_eq!(db.urls.len(), 1);
}

#[test]
fn url_submission_reuses_code_of_known_url() {
    let mut db = Db::default();
    db.submit_url("http://a.com", "1");
    let r = db.submit_url("http://a.com", "2");
    assert_eq!(r.shortened, "1");
    assert!(r.success);
    assert_eq!(db.urls.len(), 1);
}

#[test]
fn url_read_after_write() {
    let mut db = Db::default();
    for (i, u) in ["http://a", "http://b", "http://c"].iter().enumerate() {
        let code = url_shortener::shortener::base64(i as u64 + 1);
        let r = db.submit_url(u, &code);
        assert!(r.success);
        let found = url_from_reply(db.run(Query::FindUrl { shortened: r.shortened })).unwrap();
        assert_eq!(found.url, *u);
    }
}

#[test]
fn url_submission_ignores_unfit_reply() {
    let s = UrlSubmission::new("u".to_string(), "c".to_string());
    let s = s.advance(Reply::Written);
    assert!(matches!(s.query(), Some(Query::FindUrlCode { .. })));
    assert!(s.outcome().is_none());
}

#[test]
fn entry_submissions_get_sequential_codes() {
    let mut db = Db::default();
    let first = db.submit_entry("hello", ContentType::Pastebin);
    assert_eq!(first.shortened, "");
    assert!(first.success);
    let second = db.submit_entry("example.com", ContentType::Url);
    assert_eq!(second.shortened, "1");
    assert!(second.success);
    assert_eq!(
        db.entries,
        vec![
            ("hello".to_string(), "".to_string(), 1),
            ("http://example.com".to_string(), "1".to_string(), 0),
        ]
    );
    for n in 2..70u64 {
        let r = db.submit_entry("x", ContentType::Pastebin);
        assert!(r.success);
        assert_eq!(r.shortened, url_shortener::shortener::base64(n));
    }
}

#[test]
fn entry_submission_fails_on_taken_code() {
    let mut db = Db::default();
    db.entries.push(("other".to_string(), "".to_string(), 1));
    db.entries.push(("other".to_string(), "2".to_string(), 1));
    // Two entries: the new code is "2", which is taken.
    let r = db.submit_entry("mine", ContentType::Pastebin);
    assert_eq!(r.shortened, "2");
    assert!(!r.success);
    assert_eq!(db.entries.len(), 2);
}

#[test]
fn entry_read_after_write() {
    let mut db = Db::default();
    for (content, t) in [
        ("it's", ContentType::Pastebin),
        ("a.com", ContentType::Url),
        ("z", ContentType::Unimplemented),
    ] {
        let r = db.submit_entry(content, t);
        assert!(r.success);
        let e = entry_from_reply(db.run(Query::FindEntry { shortened: r.shortened })).unwrap();
        assert_eq!(e.content, prepare_content(content.to_string(), t));
        if t == ContentType::Unimplemented {
            assert_eq!(e.content_type, ContentType::All);
        } else {
            assert_eq!(e.content_type, t);
        }
    }
}

#[test]
fn counting_entries() {
    let mut db = Db::default();
    db.submit_entry("a", ContentType::Pastebin);
    db.submit_entry("b.com", ContentType::Url);
    db.submit_entry("c", ContentType::Pastebin);
    db.submit_entry("d", ContentType::Unimplemented);
    let count = |db: &mut Db, t: ContentType| {
        count_from_reply(db.run(count_query(&t)), t).unwrap().count
    };
    assert_eq!(count(&mut db, ContentType::All), 4);
    assert_eq!(count(&mut db, ContentType::Pastebin), 2);
    assert_eq!(count(&mut db, ContentType::Url), 1);
    // An entry submitted as `Unimplemented` is stored as 255 and reads back as `All`.
    assert_eq!(count(&mut db, ContentType::Unimplemented), 0);
    db.entries.push(("e".to_string(), "zz".to_string(), 3));
    db.entries.push(("f".to_string(), "zy".to_string(), 2));
    assert_eq!(count(&mut db, ContentType::Unimplemented), 2);
    assert_eq!(count(&mut db, ContentType::All), 6);
}

#[test]
fn lookups_of_missing_codes() {
    let mut db = Db::default();
    let u = url_from_reply(db.run(Query::FindUrl { shortened: "nope".to_string() })).unwrap();
    assert!(!u.success);
    let e = entry_from_reply(db.run(Query::FindEntry { shortened: "nope".to_string() })).unwrap();
    assert!(!e.success);
}
