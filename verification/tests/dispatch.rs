//! The store, the two route shapes, and the registry, driven end to end.

use rsweb::Application;
use rsweb::CollectionRoute;
use rsweb::Database;
use rsweb::Field;
use rsweb::Filter;
use rsweb::IdGen;
use rsweb::MapOrStruct;
use rsweb::MemoryDb;
use rsweb::Record;
use rsweb::ResponseBody;
use rsweb::RouteConfig;
use rsweb::SingleGet;
use rsweb::SingleRoute;
use rsweb::Value;
use rsweb::Verb;

fn numeric_field(name: &str) -> Field {
    let mut f = Field::new(name);
    f.is_num = true;
    f
}

fn movie_fields() -> Vec<Field> {
    vec![
        numeric_field("id"),
        numeric_field("year"),
        Field::new("title"),
        numeric_field("user_id"),
    ]
}

fn movie(id: u32, year: u32, title: &str, user_id: u32) -> Record {
    let mut r = Record::new();
    r.set_id(Some(id));
    r.set("year", Value::Num(year));
    r.set("title", Value::Text(String::from(title)));
    r.set("user_id", Value::Num(user_id));
    r
}

fn movies_route() -> CollectionRoute {
    CollectionRoute {
        path: String::from("/movies"),
        methods: vec![Verb::Get, Verb::Post],
        collection: String::from("movies"),
        fields: movie_fields(),
    }
}

fn movie_route() -> SingleRoute {
    SingleRoute {
        path: String::from("/movies/:id"),
        methods: vec![Verb::Get],
        collection: String::from("movies"),
    }
}

fn seeded_db() -> MemoryDb {
    let mut db = MemoryDb::new();
    db.insert_one(String::from("movies"), movie(1, 1999, "The Matrix", 7)).unwrap();
    db.insert_one(String::from("movies"), movie(2, 2001, "A.I.", 7)).unwrap();
    db
}

fn title_of(r: &Record) -> String {
    match r.get("title") {
        Some(Value::Text(t)) => t.clone(),
        _ => panic!("record carries no title"),
    }
}

#[test]
fn memory_db_insert_and_retrieve_one() {
    let mut db = MemoryDb::new();
    let id = db.insert_one(String::from("movies"), movie(5, 1968, "Playtime", 1)).unwrap();
    assert_eq!(id, 5);
    let mut filter = rsweb::FieldFilter::empty();
    rsweb::Filter::insert(&mut filter, "_id", Value::Num(5));
    let found = db.retrieve_one(String::from("movies"), filter).unwrap();
    let rec = found.expect("the inserted record should be found");
    assert_eq!(rec.get_id(), Some(5));
    assert_eq!(title_of(&rec), "Playtime");
}

#[test]
fn memory_db_insert_many_appends_in_order() {
    let mut db = MemoryDb::new();
    let items = vec![movie(1, 1999, "The Matrix", 7), movie(2, 2001, "A.I.", 7)];
    let ids = db.insert_many(String::from("movies"), items).unwrap();
    assert_eq!(ids, vec![1, 2]);
    let all = db.retrieve_many(String::from("movies"), rsweb::FieldFilter::empty()).unwrap();
    assert_eq!(all.len(), 2);
    assert_eq!(title_of(&all[0]), "The Matrix");
    assert_eq!(title_of(&all[1]), "A.I.");
}

#[test]
fn memory_db_rejects_record_without_identifier() {
    let mut db = MemoryDb::new();
    db.insert_one(String::from("movies"), movie(1, 1999, "The Matrix", 7)).unwrap();
    let mut r = Record::new();
    r.set("year", Value::Num(1999));
    assert!(db.insert_one(String::from("movies"), r).is_err());
    // the refused insert changed nothing
    let all = db.retrieve_many(String::from("movies"), rsweb::FieldFilter::empty()).unwrap();
    assert_eq!(all.len(), 1);
    assert_eq!(title_of(&all[0]), "The Matrix");
}

#[test]
fn memory_db_refused_insert_many_changes_nothing() {
    let mut db = MemoryDb::new();
    db.insert_one(String::from("movies"), movie(1, 1999, "The Matrix", 7)).unwrap();
    let mut unidentified = Record::new();
    unidentified.set("year", Value::Num(2001));
    let items = vec![movie(2, 2001, "A.I.", 7), unidentified];
    assert!(db.insert_many(String::from("movies"), items).is_err());
    let all = db.retrieve_many(String::from("movies"), rsweb::FieldFilter::empty()).unwrap();
    assert_eq!(all.len(), 1);
    assert_eq!(title_of(&all[0]), "The Matrix");
}

#[test]
fn id_gen_is_monotonic() {
    let mut gen = IdGen::starting_at(5);
    assert_eq!(gen.fresh(), 5);
    assert_eq!(gen.fresh(), 6);
}

#[test]
fn collection_get_without_params_returns_all() {
    let db = seeded_db();
    let resp = movies_route().handler_get(&db, "", true);
    assert_eq!(resp.status, 200);
    match resp.body {
        ResponseBody::Items(rows) => {
            assert_eq!(rows.len(), 2);
            assert_eq!(title_of(&rows[0]), "The Matrix");
            assert_eq!(title_of(&rows[1]), "A.I.");
        },
        _ => panic!("expected the full list"),
    }
}

#[test]
fn collection_get_by_year_returns_exactly_the_match() {
    let db = seeded_db();
    let resp = movies_route().handler_get(&db, "year=1999", true);
    assert_eq!(resp.status, 200);
    match resp.body {
        ResponseBody::Items(rows) => {
            assert_eq!(rows.len(), 1);
            assert_eq!(title_of(&rows[0]), "The Matrix");
            assert_eq!(rows[0].get_id(), Some(1));
        },
        _ => panic!("expected one matching record"),
    }
}

#[test]
fn collection_get_decodes_percent_encoded_values() {
    let db = seeded_db();
    let resp = movies_route().handler_get(&db, "title=The%20Matrix", true);
    assert_eq!(resp.status, 200);
    match resp.body {
        ResponseBody::Items(rows) => {
            assert_eq!(rows.len(), 1);
            assert_eq!(rows[0].get_id(), Some(1));
        },
        _ => panic!("expected one matching record"),
    }
}

#[test]
fn collection_get_last_duplicate_parameter_wins() {
    let db = seeded_db();
    let resp = movies_route().handler_get(&db, "year=1999&year=2001", true);
    assert_eq!(resp.status, 200);
    match resp.body {
        ResponseBody::Items(rows) => {
            assert_eq!(rows.len(), 1);
            assert_eq!(title_of(&rows[0]), "A.I.");
        },
        _ => panic!("expected the later parameter to decide"),
    }
}

#[test]
fn collection_get_bad_numeric_value_is_rejected() {
    let db = seeded_db();
    let resp = movies_route().handler_get(&db, "year=matrix", true);
    assert_eq!(resp.status, 400);
    match resp.body {
        ResponseBody::Message(m) => assert_eq!(m, "year"),
        _ => panic!("expected the rejected field's name"),
    }
}

#[test]
fn collection_get_denied_when_not_allowed() {
    let db = seeded_db();
    let resp = movies_route().handler_get(&db, "", false);
    assert_eq!(resp.status, 403);
    match resp.body {
        ResponseBody::Message(m) => assert_eq!(m, "access denied"),
        _ => panic!("expected a denial message"),
    }
}

#[test]
fn single_get_returns_the_identified_record() {
    let db = seeded_db();
    match movie_route().handler_get(&db, "2") {
        SingleGet::Found(rec) => {
            assert_eq!(rec.get_id(), Some(2));
            assert_eq!(title_of(&rec), "A.I.");
        },
        SingleGet::Done(resp) => panic!("expected a record, got status {}", resp.status),
    }
}

#[test]
fn single_get_unknown_identifier_is_404_with_empty_body() {
    let db = seeded_db();
    match movie_route().handler_get(&db, "99") {
        SingleGet::Done(resp) => {
            assert_eq!(resp.status, 404);
            assert!(matches!(resp.body, ResponseBody::Empty));
        },
        SingleGet::Found(_) => panic!("nothing is stored under this identifier"),
    }
}

#[test]
fn single_get_bad_identifier_is_400() {
    let db = seeded_db();
    match movie_route().handler_get(&db, "matrix") {
        SingleGet::Done(resp) => {
            assert_eq!(resp.status, 400);
            match resp.body {
                ResponseBody::Message(m) => assert_eq!(m, "_id"),
                _ => panic!("expected the identifier field's name"),
            }
        },
        SingleGet::Found(_) => panic!("an unparsable identifier selects nothing"),
    }
}

#[test]
fn single_get_denial_differs_from_success_and_absence() {
    let db = seeded_db();
    let route = movie_route();
    let rec = match route.handler_get(&db, "1") {
        SingleGet::Found(rec) => rec,
        SingleGet::Done(_) => panic!("the record exists"),
    };
    let denied = route.respond_found(MapOrStruct::Struct(rec.duplicate()), false);
    assert_eq!(denied.status, 403);
    assert!(matches!(denied.body, ResponseBody::Message(_)));
    let granted = route.respond_found(MapOrStruct::Struct(rec), true);
    assert_eq!(granted.status, 200);
    assert!(matches!(granted.body, ResponseBody::Item(_)));
    let absent = match route.handler_get(&db, "99") {
        SingleGet::Done(resp) => resp,
        SingleGet::Found(_) => panic!("nothing is stored under this identifier"),
    };
    assert_eq!(absent.status, 404);
    assert!(matches!(absent.body, ResponseBody::Empty));
    assert!(denied.status != granted.status);
    assert!(denied.status != absent.status);
}

#[test]
fn single_get_shaped_mapping_is_served() {
    let db = seeded_db();
    let route = movie_route();
    let rec = match route.handler_get(&db, "1") {
        SingleGet::Found(rec) => rec,
        SingleGet::Done(_) => panic!("the record exists"),
    };
    // a view transform may hand back a free-form mapping instead
    let mut shaped = Record::new();
    shaped.set("title", Value::Text(title_of(&rec)));
    shaped.set("years_since", Value::Num(2030 - 1999));
    let resp = route.respond_found(MapOrStruct::Mapping(shaped), true);
    assert_eq!(resp.status, 200);
    match resp.body {
        ResponseBody::Item(m) => {
            assert_eq!(title_of(&m), "The Matrix");
            assert!(matches!(m.get("years_since"), Some(Value::Num(31))));
            assert!(m.get("user_id").is_none());
        },
        _ => panic!("expected the shaped mapping"),
    }
}

#[test]
fn single_post_is_not_allowed() {
    let resp = movie_route().handler_post();
    assert_eq!(resp.status, 405);
    assert!(matches!(resp.body, ResponseBody::Empty));
}

#[test]
fn collection_post_round_trips_through_single_get() {
    let mut db = seeded_db();
    let mut body = Record::new();
    body.set("year", Value::Num(1968));
    body.set("title", Value::Text(String::from("Playtime")));
    body.set("user_id", Value::Num(7));
    let mut gen = IdGen::starting_at(3);
    let fresh = gen.fresh();
    let resp = movies_route().handler_post(&mut db, Some(body), fresh);
    assert_eq!(resp.status, 200);
    match resp.body {
        ResponseBody::Identifier(id) => assert_eq!(id, 3),
        _ => panic!("expected the fresh identifier"),
    }
    match movie_route().handler_get(&db, "3") {
        SingleGet::Found(rec) => {
            assert_eq!(rec.get_id(), Some(3));
            assert_eq!(title_of(&rec), "Playtime");
            assert!(matches!(rec.get("year"), Some(Value::Num(1968))));
            assert!(matches!(rec.get("user_id"), Some(Value::Num(7))));
        },
        SingleGet::Done(resp) => panic!("expected the inserted record, got {}", resp.status),
    }
}

#[test]
fn collection_post_unparsable_body_is_400() {
    let mut db = MemoryDb::new();
    let resp = movies_route().handler_post(&mut db, None, 1);
    assert_eq!(resp.status, 400);
    match resp.body {
        ResponseBody::Message(m) => assert_eq!(m, "error deserializing"),
        _ => panic!("expected the parse failure message"),
    }
    let all = db.retrieve_many(String::from("movies"), rsweb::FieldFilter::empty()).unwrap();
    assert_eq!(all.len(), 0);
}

#[test]
fn registry_binds_each_declared_verb() {
    let mut app = Application::new(MemoryDb::new());
    app.add_route(RouteConfig::Single(movie_route()));
    app.add_route(RouteConfig::Collection(movies_route()));
    match app.dispatch("/movies", Verb::Get) {
        Some(RouteConfig::Collection(c)) => assert_eq!(c.collection, "movies"),
        _ => panic!("expected the collection route"),
    }
    match app.dispatch("/movies", Verb::Post) {
        Some(RouteConfig::Collection(_)) => {},
        _ => panic!("expected the collection route under POST"),
    }
    match app.dispatch("/movies/:id", Verb::Get) {
        Some(RouteConfig::Single(s)) => assert_eq!(s.collection, "movies"),
        _ => panic!("expected the single-item route"),
    }
    assert!(app.dispatch("/movies/:id", Verb::Post).is_none());
    assert!(app.dispatch("/users", Verb::Get).is_none());
}

#[test]
fn registry_later_registration_wins() {
    let mut app = Application::new(MemoryDb::new());
    let mut first = movies_route();
    first.collection = String::from("old_movies");
    app.add_route(RouteConfig::Collection(first));
    app.add_route(RouteConfig::Collection(movies_route()));
    match app.dispatch("/movies", Verb::Get) {
        Some(RouteConfig::Collection(c)) => assert_eq!(c.collection, "movies"),
        _ => panic!("expected the later registration"),
    }
}

#[test]
fn movies_end_to_end() {
    // resource Movie{id, year, title, user_id}, store holding the two
    // records, GET /movies?year=1999 answers exactly the first
    let mut app = Application::new(seeded_db());
    app.add_route(RouteConfig::Collection(movies_route()));
    app.add_route(RouteConfig::Single(movie_route()));
    let resp = match app.dispatch("/movies", Verb::Get) {
        Some(RouteConfig::Collection(route)) => route.handler_get(
            &app.data_source,
            "year=1999",
            true,
        ),
        _ => panic!("the collection route is registered"),
    };
    assert_eq!(resp.status, 200);
    match resp.body {
        ResponseBody::Items(rows) => {
            assert_eq!(rows.len(), 1);
            assert_eq!(rows[0].get_id(), Some(1));
            assert_eq!(title_of(&rows[0]), "The Matrix");
            assert!(matches!(rows[0].get("year"), Some(Value::Num(1999))));
            assert!(matches!(rows[0].get("user_id"), Some(Value::Num(7))));
        },
        _ => panic!("expected exactly the matching movie"),
    }
}
