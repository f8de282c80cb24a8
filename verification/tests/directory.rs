use avh_portal::directory::{
    add_vacancies, aggregate, collect_holders, collect_offices, get_elected_users, holds_office,
    insert_user, sort_users, user_le, vacant, ElectedUser,
};
use avh_portal::errors::{Feed, Field, NoneOptionError, Part};
use avh_portal::json::{parse, Json, Member};

fn user(job: &str, email: &str, first: &str, sur: &str, nick: &str, date: &str) -> ElectedUser {
    ElectedUser {
        job_title: job.to_string(),
        email: email.to_string(),
        first_name: first.to_string(),
        sur_name: sur.to_string(),
        nick_name: nick.to_string(),
        reelection_date: date.to_string(),
    }
}

fn vacancy(job: &str) -> ElectedUser {
    user(job, "", "vakant", "", "", "N/A")
}

fn text(s: &str) -> Json {
    Json::Text(s.to_string())
}

fn object(members: Vec<(&str, Json)>) -> Json {
    Json::Object(
        members.into_iter().map(|(name, value)| Member { name: name.to_string(), value }).collect(),
    )
}

fn person(amt: &str, first: &str) -> Json {
    object(vec![(
        "DATENSATZ",
        object(vec![
            ("AMT", text(amt)),
            ("E-MAIL", text("m@x.de")),
            ("VORNAME-PRIVATPERSON", text(first)),
            ("NACHNAME-PRIVATPERSON", text("S")),
            ("BIERNAME", text("N")),
            ("NEUWAHL", text("2025")),
            ("JAHR", text("26")),
        ]),
    )])
}

fn holder(job: &str, first: &str) -> ElectedUser {
    user(job, "m@x.de", first, "S", "N", "2025 26")
}

fn office(amt: &str) -> Json {
    object(vec![("DATENSATZ", object(vec![("AMT", text(amt))]))])
}

fn feed(entries: Vec<Json>) -> Option<Json> {
    Some(Json::Object(
        entries
            .into_iter()
            .enumerate()
            .map(|(i, value)| Member { name: format!("{}", i), value })
            .collect(),
    ))
}

fn missing(feed: Feed, part: Part) -> NoneOptionError {
    NoneOptionError { feed, part }
}

const PRIMARY: &str = "{\"1\":{\"DATENSATZ\":{\"AMT\":\"Kassier\",\"E-MAIL\":\"a@x.de\",\"VORNAME-PRIVATPERSON\":\"Ann\",\"NACHNAME-PRIVATPERSON\":\"Bee\",\"BIERNAME\":\"AB\",\"NEUWAHL\":\"2025\",\"JAHR\":\"26\"}}}";
const CATALOG: &str = "{\"1\":{\"DATENSATZ\":{\"AMT\":\"Kassier\"}},\"2\":{\"DATENSATZ\":{\"AMT\":\"Schriftführer\"}}}";

#[test]
fn scenario_one_holder_and_one_vacancy() {
    let directory = get_elected_users(PRIMARY, CATALOG).unwrap();
    assert_eq!(
        directory,
        vec![
            user("Kassier", "a@x.de", "Ann", "Bee", "AB", "2025 26"),
            user("Schriftführer", "", "vakant", "", "", "N/A"),
        ]
    );
}

#[test]
fn same_payloads_give_the_same_directory() {
    let first = get_elected_users(PRIMARY, CATALOG);
    let second = get_elected_users(PRIMARY, CATALOG);
    assert_eq!(first, second);
}

#[test]
fn amt_with_blank_token_gives_two_groups() {
    let primary = feed(vec![person("A, , B", "Ann")]);
    let directory = aggregate(&primary, &feed(vec![])).unwrap();
    assert_eq!(directory, vec![holder("A", "Ann"), holder("B", "Ann")]);
}

#[test]
fn primary_names_are_trimmed_and_catalog_names_stand() {
    let primary = feed(vec![person(" Kassier ,Wart", "Ann")]);
    let catalog = feed(vec![office("Kassier"), office("Wart "), office("Senior")]);
    let directory = aggregate(&primary, &catalog).unwrap();
    assert_eq!(
        directory,
        vec![holder("Kassier", "Ann"), vacancy("Senior"), holder("Wart", "Ann"), vacancy("Wart ")]
    );
}

#[test]
fn directory_is_sorted_by_office_then_given_name() {
    let primary = feed(vec![
        person("Wart", "Zoe"),
        person("Kassier,Wart", "Moritz"),
        person("Wart", "Anna"),
        person("Archivar", "Bo"),
    ]);
    let catalog = feed(vec![office("Senior"), office("Kassier")]);
    let directory = aggregate(&primary, &catalog).unwrap();
    assert_eq!(
        directory,
        vec![
            holder("Archivar", "Bo"),
            holder("Kassier", "Moritz"),
            vacancy("Senior"),
            holder("Wart", "Anna"),
            holder("Wart", "Moritz"),
            holder("Wart", "Zoe"),
        ]
    );
    for pair in directory.windows(2) {
        assert!(user_le(&pair[0], &pair[1]));
        assert!(
            (pair[0].job_title.as_str(), pair[0].first_name.as_str())
                <= (pair[1].job_title.as_str(), pair[1].first_name.as_str())
        );
    }
}

#[test]
fn order_is_by_bytes() {
    let primary = feed(vec![person("Zeugwart", "a"), person("Ämterwart", "b"), person("amt", "c")]);
    let directory = aggregate(&primary, &feed(vec![])).unwrap();
    assert_eq!(
        directory,
        vec![holder("Zeugwart", "a"), holder("amt", "c"), holder("Ämterwart", "b")]
    );
}

#[test]
fn equal_names_in_one_office_keep_feed_order() {
    let mut first = holder("Wart", "Ann");
    first.sur_name = "First".to_string();
    let mut second = holder("Wart", "Ann");
    second.sur_name = "Second".to_string();
    let sorted = sort_users(vec![
        holder("Wart", "Bea"),
        user("Wart", "m@x.de", "Ann", "First", "N", "2025 26"),
        user("Wart", "m@x.de", "Ann", "Second", "N", "2025 26"),
    ]);
    assert_eq!(sorted, vec![first, second, holder("Wart", "Bea")]);
}

#[test]
fn catalog_only_office_gets_exactly_one_vacancy() {
    let primary = feed(vec![person("Kassier", "Ann")]);
    let catalog = feed(vec![office("Senior"), office("Kassier"), office("Senior")]);
    let directory = aggregate(&primary, &catalog).unwrap();
    let seniors: Vec<&ElectedUser> =
        directory.iter().filter(|u| u.job_title == "Senior").collect();
    assert_eq!(seniors, vec![&vacancy("Senior")]);
    assert_eq!(seniors[0].reelection_date, "N/A");
    assert_eq!(directory.iter().filter(|u| u.job_title == "Kassier").count(), 1);
}

#[test]
fn catalog_amt_is_one_office_name_as_it_stands() {
    let catalog = feed(vec![office("B,A")]);
    assert_eq!(aggregate(&feed(vec![]), &catalog), Ok(vec![vacancy("B,A")]));
    let catalog = feed(vec![office("B, ,A"), office("   "), office(" X")]);
    assert_eq!(
        aggregate(&feed(vec![]), &catalog),
        Ok(vec![vacancy("   "), vacancy(" X"), vacancy("B, ,A")])
    );
}

#[test]
fn catalog_amt_that_is_empty_names_no_office() {
    let catalog = feed(vec![office(""), office("A"), office("")]);
    assert_eq!(aggregate(&feed(vec![]), &catalog), Ok(vec![vacancy("A")]));
    assert_eq!(aggregate(&feed(vec![]), &feed(vec![office("")])), Ok(vec![]));
}

#[test]
fn catalog_name_with_a_comma_is_not_held_by_its_parts() {
    let primary = feed(vec![person("A,B", "Ann")]);
    let catalog = feed(vec![office("A,B"), office("A")]);
    let directory = aggregate(&primary, &catalog).unwrap();
    assert_eq!(directory, vec![holder("A", "Ann"), vacancy("A,B"), holder("B", "Ann")]);
}

#[test]
fn directory_has_one_record_per_token_and_per_free_catalog_office() {
    let primary = feed(vec![person("A, B ,,C", "Ann"), person("B", "Bea"), person(" ", "Cy")]);
    let catalog = feed(vec![office("D"), office("B"), office("D"), office("E"), office("A")]);
    let directory = aggregate(&primary, &catalog).unwrap();
    assert_eq!(directory.len(), 4 + 2);
    let mut titles: Vec<&str> = directory.iter().map(|u| u.job_title.as_str()).collect();
    titles.dedup();
    assert_eq!(titles, vec!["A", "B", "C", "D", "E"]);
}

#[test]
fn person_named_twice_in_one_office_has_two_records() {
    let primary = feed(vec![person("A,A", "Ann")]);
    let directory = aggregate(&primary, &feed(vec![])).unwrap();
    assert_eq!(directory, vec![holder("A", "Ann"), holder("A", "Ann")]);
}

#[test]
fn empty_feeds_give_an_empty_directory() {
    assert_eq!(get_elected_users("{}", "{}"), Ok(vec![]));
}

#[test]
fn payload_that_is_no_json_is_rejected() {
    assert_eq!(get_elected_users("<html>", CATALOG), Err(missing(Feed::Primary, Part::Json)));
    assert_eq!(get_elected_users(PRIMARY, "{"), Err(missing(Feed::Secondary, Part::Json)));
    assert_eq!(aggregate(&None, &None), Err(missing(Feed::Primary, Part::Json)));
}

#[test]
fn document_that_is_no_object_is_rejected() {
    assert_eq!(get_elected_users("[]", CATALOG), Err(missing(Feed::Primary, Part::Document)));
    assert_eq!(get_elected_users(PRIMARY, "\"x\""), Err(missing(Feed::Secondary, Part::Document)));
}

#[test]
fn entry_that_is_no_object_is_rejected() {
    assert_eq!(get_elected_users("{\"1\":3}", CATALOG), Err(missing(Feed::Primary, Part::Record)));
    assert_eq!(
        get_elected_users(PRIMARY, "{\"1\":null}"),
        Err(missing(Feed::Secondary, Part::Record))
    );
}

#[test]
fn entry_without_record_is_rejected() {
    let no_record = missing(Feed::Primary, Part::Field(Field::Datensatz));
    assert_eq!(get_elected_users("{\"1\":{}}", CATALOG), Err(no_record));
    assert_eq!(get_elected_users("{\"1\":{\"DATENSATZ\":\"x\"}}", CATALOG), Err(no_record));
    assert_eq!(
        get_elected_users(PRIMARY, "{\"1\":{\"DATENSATZ\":[1]}}"),
        Err(missing(Feed::Secondary, Part::Field(Field::Datensatz)))
    );
}

#[test]
fn each_required_field_is_reported_by_name() {
    let fields = [
        ("AMT", Field::Amt),
        ("E-MAIL", Field::Email),
        ("VORNAME-PRIVATPERSON", Field::Vorname),
        ("NACHNAME-PRIVATPERSON", Field::Nachname),
        ("BIERNAME", Field::Biername),
        ("NEUWAHL", Field::Neuwahl),
        ("JAHR", Field::Jahr),
    ];
    for (skip, (_, field)) in fields.iter().enumerate() {
        let members: Vec<(&str, Json)> = fields
            .iter()
            .enumerate()
            .filter(|(i, _)| *i != skip)
            .map(|(_, (name, _))| (*name, text("x")))
            .collect();
        let primary = feed(vec![object(vec![("DATENSATZ", object(members))])]);
        assert_eq!(
            aggregate(&primary, &feed(vec![])),
            Err(missing(Feed::Primary, Part::Field(*field)))
        );
    }
}

#[test]
fn field_of_the_wrong_type_is_rejected() {
    let payload = PRIMARY.replace("\"26\"", "26");
    assert_eq!(
        get_elected_users(&payload, CATALOG),
        Err(missing(Feed::Primary, Part::Field(Field::Jahr)))
    );
    assert_eq!(
        get_elected_users(PRIMARY, "{\"1\":{\"DATENSATZ\":{\"AMT\":7}}}"),
        Err(missing(Feed::Secondary, Part::Field(Field::Amt)))
    );
}

#[test]
fn record_without_offices_still_needs_all_fields() {
    let primary = feed(vec![object(vec![("DATENSATZ", object(vec![("AMT", text(" , "))]))])]);
    assert_eq!(
        aggregate(&primary, &feed(vec![])),
        Err(missing(Feed::Primary, Part::Field(Field::Email)))
    );
    assert_eq!(aggregate(&feed(vec![person(" , ", "Ann")]), &feed(vec![])), Ok(vec![]));
}

#[test]
fn first_bad_entry_decides_the_error() {
    let primary = feed(vec![person("A", "Ann"), Json::Null, object(vec![])]);
    assert_eq!(aggregate(&primary, &None), Err(missing(Feed::Primary, Part::Record)));
    let catalog = feed(vec![office("A"), object(vec![]), Json::Null]);
    assert_eq!(
        aggregate(&feed(vec![]), &catalog),
        Err(missing(Feed::Secondary, Part::Field(Field::Datensatz)))
    );
}

#[test]
fn primary_feed_is_judged_before_the_catalog() {
    assert_eq!(get_elected_users("{\"1\":{}}", "nonsense"), Err(missing(Feed::Primary, Part::Field(Field::Datensatz))));
}

#[test]
fn collectors_keep_feed_order() {
    let primary = feed(vec![person("B,A", "Zoe"), person("A", "Ann")]).unwrap();
    let holders = collect_holders(primary.members().unwrap()).unwrap();
    assert_eq!(holders, vec![holder("B", "Zoe"), holder("A", "Zoe"), holder("A", "Ann")]);
    let catalog = feed(vec![office("B,A"), office("A"), office(""), office(" A")]).unwrap();
    let offices = collect_offices(catalog.members().unwrap()).unwrap();
    assert_eq!(offices, vec!["B,A".to_string(), "A".to_string(), " A".to_string()]);
}

#[test]
fn vacancies_are_added_once_and_only_for_free_offices() {
    let mut list = vec![holder("A", "Ann")];
    assert!(holds_office(&list, &"A".to_string()));
    assert!(!holds_office(&list, &"a".to_string()));
    add_vacancies(&mut list, vec!["B".to_string(), "A".to_string(), "B".to_string()]);
    assert_eq!(list, vec![holder("A", "Ann"), vacancy("B")]);
    assert_eq!(vacant("B".to_string()), vacancy("B"));
}

#[test]
fn insert_goes_behind_equal_records() {
    let mut list = vec![holder("A", "Ann"), holder("B", "Bea"), holder("C", "Cy")];
    let mut late = holder("B", "Bea");
    late.email = "late@x.de".to_string();
    insert_user(&mut list, user("B", "late@x.de", "Bea", "S", "N", "2025 26"));
    assert_eq!(list, vec![holder("A", "Ann"), holder("B", "Bea"), late, holder("C", "Cy")]);
    insert_user(&mut list, holder("0", "Z"));
    assert_eq!(list[0], holder("0", "Z"));
}

#[test]
fn parsed_feed_equals_the_tree_written_by_hand() {
    let parsed = parse("{\"7\":{\"DATENSATZ\":{\"AMT\":\"Kassier\"}}}");
    assert_eq!(
        parsed,
        Some(Json::Object(vec![Member { name: "7".to_string(), value: office("Kassier") }]))
    );
}
