//! Field metadata, value parsing, and filter construction.

use rsweb::CollectionRoute;
use rsweb::DataResource;
use rsweb::Field;
use rsweb::FieldFilter;
use rsweb::Filter;
use rsweb::MemoryDb;
use rsweb::Record;
use rsweb::ResponseBody;
use rsweb::Value;
use rsweb::Verb;
use rsweb::parse_u32;

fn numeric_field(name: &str) -> Field {
    let mut f = Field::new(name);
    f.is_num = true;
    f
}

fn boolean_field(name: &str) -> Field {
    let mut f = Field::new(name);
    f.is_bool = true;
    f
}

#[test]
fn field_new_is_text() {
    let f = Field::new("title");
    assert_eq!(f.name, "title");
    assert!(!f.is_num);
    assert!(!f.is_bool);
}

#[test]
fn parse_u32_accepts_digits() {
    assert_eq!(parse_u32("0"), Some(0));
    assert_eq!(parse_u32("1999"), Some(1999));
    assert_eq!(parse_u32("007"), Some(7));
    assert_eq!(parse_u32("4294967295"), Some(u32::MAX));
}

#[test]
fn parse_u32_rejects_non_numbers() {
    assert_eq!(parse_u32(""), None);
    assert_eq!(parse_u32("12a"), None);
    assert_eq!(parse_u32("+5"), None);
    assert_eq!(parse_u32("-5"), None);
    assert_eq!(parse_u32("matrix"), None);
    assert_eq!(parse_u32("4294967296"), None);
}

#[test]
fn filter_insert_replaces_earlier_constraint() {
    let mut f = FieldFilter::empty();
    assert!(f.insert("year", Value::Num(1999)).is_none());
    let prev = f.insert("year", Value::Num(2001));
    match prev {
        Some(Value::Num(n)) => assert_eq!(n, 1999),
        _ => panic!("expected the earlier numeric constraint"),
    }
    let entries = f.entries();
    assert_eq!(entries.len(), 1);
    assert_eq!(entries[0].0, "year");
    match &entries[0].1 {
        Value::Num(n) => assert_eq!(*n, 2001),
        _ => panic!("expected a numeric constraint"),
    }
}

#[test]
fn filter_default_is_empty() {
    let f: FieldFilter = Default::default();
    assert_eq!(f.entries().len(), 0);
}

#[test]
fn record_set_get_and_identifier() {
    let mut r = Record::new();
    r.set("title", Value::Text(String::from("The Matrix")));
    r.set("year", Value::Num(1999));
    assert_eq!(r.len(), 2);
    match r.get("title") {
        Some(Value::Text(t)) => assert_eq!(t, "The Matrix"),
        _ => panic!("expected the title field"),
    }
    assert!(r.get("missing").is_none());
    assert_eq!(r.get_id(), None);
    r.set_id(Some(42));
    assert_eq!(r.get_id(), Some(42));
    r.set_id(None);
    assert_eq!(r.get_id(), None);
    assert_eq!(r.len(), 2);
}

#[test]
fn record_set_replaces_in_place() {
    let mut r = Record::new();
    r.set("year", Value::Num(1999));
    r.set("title", Value::Text(String::from("The Matrix")));
    r.set("year", Value::Num(2001));
    let entries = r.entries();
    assert_eq!(entries.len(), 2);
    assert_eq!(entries[0].0, "year");
    match &entries[0].1 {
        Value::Num(n) => assert_eq!(*n, 2001),
        _ => panic!("expected a numeric field"),
    }
    assert_eq!(entries[1].0, "title");
}

#[test]
fn fields_trait_declares_queryable_members() {
    struct Movie {
        id: Option<u32>,
        year: u32,
        title: String,
        user_id: u32,
    }
    impl rsweb::Fields for Movie {
        fn fields() -> Vec<Field> {
            vec![
                numeric_field("id"),
                numeric_field("year"),
                Field::new("title"),
                numeric_field("user_id"),
            ]
        }
    }
    impl rsweb::DataResource for Movie {
        fn get_collection_name() -> String {
            String::from("movies")
        }

        fn get_id(&self) -> Option<u32> {
            self.id
        }

        fn set_id(&mut self, id: Option<u32>) {
            self.id = id;
        }
    }
    let fields = <Movie as rsweb::Fields>::fields();
    assert_eq!(fields.len(), 4);
    assert_eq!(fields[0].name, "id");
    assert!(fields[0].is_num);
    assert_eq!(fields[2].name, "title");
    assert!(!fields[2].is_num);

    let mut m = Movie { id: None, year: 1999, title: String::from("The Matrix"), user_id: 7 };
    assert_eq!(<Movie as rsweb::DataResource>::get_collection_name(), "movies");
    m.set_id(Some(3));
    assert_eq!(m.get_id(), Some(3));
    assert_eq!(m.year, 1999);
    assert_eq!(m.user_id, 7);
    assert_eq!(m.title, "The Matrix");
}

#[test]
fn boolean_field_values_parse_strictly() {
    let db = MemoryDb::new();
    let route = CollectionRoute {
        path: String::from("/flags"),
        methods: vec![Verb::Get],
        collection: String::from("flags"),
        fields: vec![boolean_field("active")],
    };
    let ok = route.handler_get(&db, "active=true", true);
    assert_eq!(ok.status, 200);
    let bad = route.handler_get(&db, "active=maybe", true);
    assert_eq!(bad.status, 400);
    match bad.body {
        ResponseBody::Message(m) => assert_eq!(m, "active"),
        _ => panic!("expected the rejected field's name"),
    }
}
