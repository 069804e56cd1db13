use content_store::content_type::ContentType;
use content_store::record::{ContentCreate, ContentUpdate};
use content_store::schema::{ColumnKind, Migration, SchemaOp};
use content_store::store::{ContentStore, StoreError, DEFAULT_PAGE_SIZE};

fn some_s(s: &str) -> Option<String> {
    Some(s.to_string())
}

fn request(pid: &str, title: Option<&str>, url: &str, content_type: &str) -> ContentCreate {
    ContentCreate {
        pid: some_s(pid),
        url: some_s(url),
        content_type: some_s(content_type),
        title: title.map(|t| t.to_string()),
        image_url: None,
        description: None,
        raw_content: None,
        summary: None,
        metadata: None,
    }
}

fn empty_update() -> ContentUpdate {
    ContentUpdate {
        title: None,
        url: None,
        content_type: None,
        image_url: None,
        description: None,
        raw_content: None,
        summary: None,
        metadata: None,
    }
}

fn seeded() -> ContentStore {
    let mut store = ContentStore::new();
    store
        .create(
            request(
                "11111111-1111-1111-1111-111111111111",
                Some("loco"),
                "https://example.com",
                "web_article",
            ),
            100,
        )
        .unwrap();
    store
        .create(
            request(
                "22222222-2222-2222-2222-222222222222",
                Some("other things"),
                "https://other.example.com",
                "bookmark",
            ),
            200,
        )
        .unwrap();
    store
}

#[test]
fn can_add_content() {
    let mut store = ContentStore::new();
    let req = ContentCreate {
        pid: some_s("00000000-0000-0000-0000-000000001234"),
        title: some_s("loco"),
        url: some_s("https://loco.com"),
        content_type: some_s("web_article"),
        image_url: some_s("https://loco.com/image.jpg"),
        description: some_s("loco description"),
        raw_content: some_s("loco raw content"),
        summary: some_s("loco summary"),
        metadata: Some(vec![
            ("key1".to_string(), "value1".to_string()),
            ("key2".to_string(), "value2".to_string()),
        ]),
    };
    let created = store.create(req, 1000).unwrap();
    assert_eq!(created.id, 1);
    assert_eq!(created.pid, "00000000-0000-0000-0000-000000001234");
    assert_eq!(created.title, some_s("loco"));
    assert_eq!(created.url, "https://loco.com");
    assert_eq!(created.content_type, ContentType::WebArticle);
    assert_eq!(created.image_url, some_s("https://loco.com/image.jpg"));
    assert_eq!(created.description, some_s("loco description"));
    assert_eq!(created.raw_content, some_s("loco raw content"));
    assert_eq!(created.summary, some_s("loco summary"));
    let meta = created.metadata.unwrap();
    assert_eq!(meta.len(), 2);
    assert_eq!(meta[0], ("key1".to_string(), "value1".to_string()));
    assert_eq!(meta[1], ("key2".to_string(), "value2".to_string()));
    assert_eq!(created.created_at, 1000);
    assert_eq!(created.updated_at, 1000);
    assert_eq!(store.count(), 1);
}

#[test]
fn can_list() {
    let store = seeded();
    let page = store.list(None, 1, 0);
    assert_eq!(page.records.len(), 2);
    assert_eq!(page.total, 2);
    assert_eq!(page.page, 1);
    assert_eq!(page.page_size, DEFAULT_PAGE_SIZE);
    assert_eq!(page.total_pages, 1);
    assert_eq!(page.records[0].id, 1);
    assert_eq!(page.records[1].id, 2);
}

#[test]
fn can_get_content() {
    let store = seeded();
    let got = store.get_by_id(1).unwrap();
    assert_eq!(got.id, 1);
    assert_eq!(got.pid, "11111111-1111-1111-1111-111111111111");
    assert_eq!(got.title, some_s("loco"));
    assert_eq!(got.url, "https://example.com");
    assert_eq!(got.content_type, ContentType::WebArticle);
    assert_eq!(got.created_at, 100);
}

#[test]
fn can_update_content() {
    let mut store = seeded();
    let mut upd = empty_update();
    upd.title = some_s("Updated Title");
    upd.url = some_s("https://updated-url.com");
    upd.content_type = some_s("publication");
    let updated = store.update(1, upd, 500).unwrap();
    assert_eq!(updated.id, 1);
    assert_eq!(updated.title, some_s("Updated Title"));
    assert_eq!(updated.url, "https://updated-url.com");
    assert_eq!(updated.content_type, ContentType::Publication);
    assert_eq!(updated.pid, "11111111-1111-1111-1111-111111111111");
    assert_eq!(updated.created_at, 100);
    assert_eq!(updated.updated_at, 500);
    let got = store.get_by_id(1).unwrap();
    assert_eq!(got.title, some_s("Updated Title"));
    assert_eq!(got.url, "https://updated-url.com");
}

#[test]
fn can_delete_content() {
    let mut store = seeded();
    assert_eq!(store.count(), 2);
    assert!(store.delete(1).is_ok());
    assert_eq!(store.count(), 1);
    assert!(matches!(store.get_by_id(1), Err(StoreError::NotFound)));
}

#[test]
fn can_get_contents() {
    let store = seeded();
    let page = store.list(None, 1, 10);
    assert_eq!(page.total, 2);
    let ids: Vec<u64> = page.records.iter().map(|c| c.id).collect();
    assert_eq!(ids, vec![1, 2]);
}

#[test]
fn check_url_exists() {
    let store = seeded();
    assert!(store.check_url_exists("https://example.com"));
}

#[test]
fn check_url_not_exists() {
    let store = seeded();
    assert!(!store.check_url_exists("https://exmple111.com"));
}

#[test]
fn duplicate_url_is_conflict_and_count_unchanged() {
    let mut store = seeded();
    let res = store.create(
        request(
            "33333333-3333-3333-3333-333333333333",
            Some("copycat"),
            "https://example.com",
            "bookmark",
        ),
        300,
    );
    assert!(matches!(res, Err(StoreError::Conflict)));
    assert_eq!(store.count(), 2);
}

#[test]
fn duplicate_pid_is_conflict() {
    let mut store = seeded();
    let res = store.create(
        request(
            "11111111-1111-1111-1111-111111111111",
            Some("copycat"),
            "https://fresh.example.com",
            "bookmark",
        ),
        300,
    );
    assert!(matches!(res, Err(StoreError::Conflict)));
    assert_eq!(store.count(), 2);
}

#[test]
fn invalid_content_type_is_validation_error() {
    let mut store = ContentStore::new();
    let res = store.create(
        request(
            "44444444-4444-4444-4444-444444444444",
            None,
            "https://movie.example.com",
            "movie",
        ),
        300,
    );
    assert!(matches!(res, Err(StoreError::ValidationError)));
    assert_eq!(store.count(), 0);
}

#[test]
fn missing_required_field_is_validation_error() {
    let mut store = ContentStore::new();
    let mut req = request(
        "55555555-5555-5555-5555-555555555555",
        None,
        "https://nowhere.example.com",
        "unknown",
    );
    req.url = None;
    let res = store.create(req, 300);
    assert!(matches!(res, Err(StoreError::ValidationError)));
    assert_eq!(store.count(), 0);
}

#[test]
fn create_then_get_returns_created_record() {
    let mut store = seeded();
    let created = store
        .create(
            request(
                "66666666-6666-6666-6666-666666666666",
                Some("fresh"),
                "https://fresh.example.com",
                "publication",
            ),
            700,
        )
        .unwrap();
    let got = store.get_by_id(created.id).unwrap();
    assert_eq!(got.id, created.id);
    assert_eq!(got.pid, created.pid);
    assert_eq!(got.title, created.title);
    assert_eq!(got.url, created.url);
    assert_eq!(got.content_type, created.content_type);
    assert_eq!(got.created_at, 700);
    assert_eq!(got.updated_at, 700);
}

#[test]
fn delete_missing_is_not_found() {
    let mut store = seeded();
    let res = store.delete(42);
    assert!(matches!(res, Err(StoreError::NotFound)));
    assert_eq!(store.count(), 2);
}

#[test]
fn pagination_windows() {
    let mut store = ContentStore::new();
    for i in 0..6u64 {
        store
            .create(
                request(
                    &format!("00000000-0000-0000-0000-00000000000{i}"),
                    Some(&format!("title {i}")),
                    &format!("https://site{i}.example.com"),
                    "web_article",
                ),
                100 + i,
            )
            .unwrap();
    }
    let one = store.list(None, 1, 1);
    assert_eq!(one.records.len(), 1);
    assert_eq!(one.records[0].id, 1);
    assert_eq!(one.total, 6);
    assert_eq!(one.total_pages, 6);
    let second = store.list(None, 2, 5);
    assert_eq!(second.records.len(), 1);
    assert_eq!(second.records[0].id, 6);
    assert_eq!(second.total_pages, 2);
    let beyond = store.list(None, 3, 5);
    assert_eq!(beyond.records.len(), 0);
    let clamped = store.list(None, 0, 0);
    assert_eq!(clamped.page, 1);
    assert_eq!(clamped.page_size, DEFAULT_PAGE_SIZE);
    assert_eq!(clamped.records.len(), 6);
}

#[test]
fn empty_store_lists_nothing() {
    let store = ContentStore::new();
    let page = store.list(None, 1, 1);
    assert_eq!(page.records.len(), 0);
    assert_eq!(page.total, 0);
    assert_eq!(page.total_pages, 0);
}

#[test]
fn title_filter_is_case_sensitive_substring() {
    let mut store = ContentStore::new();
    let titles = [
        Some("loco"),
        Some("a loco thing"),
        Some("LOCO SHOUTED"),
        Some("unrelated"),
        None,
    ];
    for (i, title) in titles.iter().enumerate() {
        store
            .create(
                request(
                    &format!("00000000-0000-0000-0000-0000000000a{i}"),
                    *title,
                    &format!("https://filter{i}.example.com"),
                    "bookmark",
                ),
                100,
            )
            .unwrap();
    }
    let page = store.list(Some("loco"), 1, 10);
    assert_eq!(page.total, 2);
    assert_eq!(page.records.len(), 2);
    assert_eq!(page.records[0].title, some_s("loco"));
    assert_eq!(page.records[1].title, some_s("a loco thing"));
}

#[test]
fn update_missing_is_not_found() {
    let mut store = seeded();
    let res = store.update(42, empty_update(), 900);
    assert!(matches!(res, Err(StoreError::NotFound)));
}

#[test]
fn update_invalid_content_type_is_validation_error() {
    let mut store = seeded();
    let mut upd = empty_update();
    upd.content_type = some_s("movie");
    let res = store.update(1, upd, 900);
    assert!(matches!(res, Err(StoreError::ValidationError)));
    let got = store.get_by_id(1).unwrap();
    assert_eq!(got.updated_at, 100);
}

#[test]
fn update_url_to_taken_is_conflict_and_fresh_succeeds() {
    let mut store = seeded();
    let mut clash = empty_update();
    clash.url = some_s("https://other.example.com");
    let res = store.update(1, clash, 900);
    assert!(matches!(res, Err(StoreError::Conflict)));
    let unchanged = store.get_by_id(1).unwrap();
    assert_eq!(unchanged.url, "https://example.com");
    assert_eq!(unchanged.updated_at, 100);

    let mut keep_own = empty_update();
    keep_own.url = some_s("https://example.com");
    let same = store.update(1, keep_own, 950).unwrap();
    assert_eq!(same.url, "https://example.com");
    assert_eq!(same.updated_at, 950);

    let mut fresh = empty_update();
    fresh.url = some_s("https://brand-new.example.com");
    let updated = store.update(1, fresh, 990).unwrap();
    assert_eq!(updated.url, "https://brand-new.example.com");
    assert_eq!(updated.updated_at, 990);
    assert!(store.check_url_exists("https://brand-new.example.com"));
    assert!(!store.check_url_exists("https://example.com"));
}

#[test]
fn content_type_wire_strings_round_trip() {
    let all = [
        (ContentType::WebArticle, "web_article"),
        (ContentType::YoutubeVideo, "youtube_video"),
        (ContentType::Publication, "publication"),
        (ContentType::Bookmark, "bookmark"),
        (ContentType::Unknown, "unknown"),
    ];
    for (ct, wire) in all {
        assert_eq!(ct.wire_str(), wire);
        assert_eq!(ContentType::parse(wire), Some(ct));
    }
    assert_eq!(ContentType::parse("movie"), None);
    assert_eq!(ContentType::parse(""), None);
    assert_eq!(ContentType::parse("Web_Article"), None);
}

#[test]
fn migration_up_plan_declares_enum_then_table() {
    let ops = Migration.up();
    assert_eq!(ops.len(), 2);
    match &ops[0] {
        SchemaOp::CreateEnumType { name, values } => {
            assert_eq!(*name, "content_type");
            assert_eq!(
                values,
                &vec!["web_article", "youtube_video", "publication", "bookmark", "unknown"]
            );
        }
        _ => panic!("first step must create the enum type"),
    }
    match &ops[1] {
        SchemaOp::CreateTable(table) => {
            assert_eq!(table.name, "contents");
            let names: Vec<&str> = table.columns.iter().map(|c| c.name).collect();
            assert_eq!(
                names,
                vec![
                    "id",
                    "pid",
                    "title",
                    "url",
                    "content_type",
                    "image_url",
                    "description",
                    "raw_content",
                    "summary",
                    "metadata",
                    "created_at",
                    "updated_at",
                ]
            );
            assert!(table.columns[0].primary_key);
            assert!(table.columns[1].unique);
            assert!(table.columns[3].unique);
            assert!(!table.columns[4].nullable);
            assert!(matches!(table.columns[4].kind, ColumnKind::DbEnum("content_type")));
            assert!(table.columns[2].nullable);
            assert!(matches!(table.columns[10].kind, ColumnKind::TimestampWithTz));
            assert!(matches!(table.columns[11].kind, ColumnKind::TimestampWithTz));
        }
        _ => panic!("second step must create the table"),
    }
}

#[test]
fn migration_down_plan_drops_table_then_enum() {
    let ops = Migration.down();
    assert_eq!(ops.len(), 2);
    assert!(matches!(&ops[0], SchemaOp::DropTable { name: "contents" }));
    assert!(matches!(&ops[1], SchemaOp::DropEnumType { name: "content_type" }));
}
