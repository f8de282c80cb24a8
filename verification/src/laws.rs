//! What holds of every directory: it is sorted, it holds the records of the
//! primary feed and nothing else but vacancies, and each office that only the
//! catalog names has exactly one vacancy.

use crate::directory::{
    all_titled, catalog_offices, directory, feed_entries, has_office, holder_le, holder_of,
    holders_of, insert_position, insert_sorted, is_sorted, is_titled, lemma_holder_le_transitive,
    lemma_insert_position, lemma_insert_position_unique, lemma_sorted, person_of,
    primary_holders, sorted, vacancy, with_vacancies, Holder, Person,
};
use crate::errors::{Feed, NoneOptionError};
use crate::json::{JsonValue, Pair};
use crate::text::{is_trimmed, lemma_surviving_names, offices_of, split_commas};
use vstd::prelude::*;

verus! {

/// The records of `list` that are for `office`, in the order of `list`.
pub open spec fn office_group(list: Seq<Holder>, office: Seq<char>) -> Seq<Holder>
    decreases list.len(),
{
    if list.len() == 0 {
        Seq::empty()
    } else {
        let before = office_group(list.drop_last(), office);
        if list.last().job_title == office {
            before.push(list.last())
        } else {
            before
        }
    }
}

/// The group of a list made of two parts is made of the groups of the parts.
pub proof fn lemma_group_of_parts(a: Seq<Holder>, b: Seq<Holder>, office: Seq<char>)
    ensures
        office_group(a + b, office) == office_group(a, office) + office_group(b, office),
    decreases b.len(),
{
    if b.len() == 0 {
        assert(a + b =~= a);
        assert(office_group(a, office) + office_group(b, office) =~= office_group(a, office));
    } else {
        lemma_group_of_parts(a, b.drop_last(), office);
        assert((a + b).drop_last() =~= a + b.drop_last());
        assert((a + b).last() == b.last());
        if b.last().job_title == office {
            assert((office_group(a, office) + office_group(b.drop_last(), office)).push(b.last())
                =~= office_group(a, office) + office_group(b, office));
        }
    }
}

/// Every record of a group is a record of the list, and is for the office.
pub proof fn lemma_group_members(list: Seq<Holder>, office: Seq<char>)
    ensures
        office_group(list, office).len() <= list.len(),
        forall|j: int|
            0 <= j < office_group(list, office).len() ==> (#[trigger] office_group(
                list,
                office,
            )[j]).job_title == office && list.contains(office_group(list, office)[j]),
    decreases list.len(),
{
    if list.len() > 0 {
        let d = list.drop_last();
        let g = office_group(list, office);
        lemma_group_members(d, office);
        assert forall|j: int| 0 <= j < g.len() implies (#[trigger] g[j]).job_title == office
            && list.contains(g[j]) by {
            if j < office_group(d, office).len() {
                let h = office_group(d, office)[j];
                assert(d.contains(h));
                let k = choose|k: int| 0 <= k < d.len() && d[k] == h;
                assert(list[k] == h);
            } else {
                assert(list[list.len() - 1] == g[j]);
            }
        }
    }
}

/// A list has a record for an office just when the office's group is not
/// empty.
pub proof fn lemma_group_empty(list: Seq<Holder>, office: Seq<char>)
    ensures
        has_office(list, office) <==> office_group(list, office).len() > 0,
    decreases list.len(),
{
    if list.len() > 0 {
        let d = list.drop_last();
        lemma_group_empty(d, office);
        if has_office(list, office) {
            let i = choose|i: int| 0 <= i < list.len() && (#[trigger] list[i]).job_title == office;
            if i < d.len() {
                assert(d[i].job_title == office);
            }
        }
        if has_office(d, office) {
            let i = choose|i: int| 0 <= i < d.len() && (#[trigger] d[i]).job_title == office;
            assert(list[i].job_title == office);
        }
        if list.last().job_title == office {
            assert(list[list.len() - 1].job_title == office);
        }
    }
}

/// Putting a record into a sorted list puts it into its office's group at its
/// place there, and leaves every other group as it is.
pub proof fn lemma_group_of_insert(s: Seq<Holder>, x: Holder, office: Seq<char>)
    requires
        is_sorted(s),
    ensures
        office_group(insert_sorted(s, x), office) == if x.job_title == office {
            insert_sorted(office_group(s, office), x)
        } else {
            office_group(s, office)
        },
{
    let p = insert_position(s, x);
    lemma_insert_position(s, x);
    let a = s.take(p);
    let b = s.skip(p);
    let ga = office_group(a, office);
    let gb = office_group(b, office);
    let g = office_group(s, office);
    assert(s =~= a + b);
    assert(insert_sorted(s, x) =~= a.push(x) + b);
    lemma_group_of_parts(a, b, office);
    lemma_group_of_parts(a.push(x), b, office);
    assert(a.push(x).drop_last() =~= a);
    if x.job_title == office {
        lemma_group_members(a, office);
        lemma_group_members(b, office);
        assert forall|j: int| ga.len() <= j < g.len() implies !holder_le(#[trigger] g[j], x) by {
            let h = gb[j - ga.len()];
            assert(g[j] == h);
            assert(b.contains(h));
            let k = choose|k: int| 0 <= k < b.len() && b[k] == h;
            assert(s[p + k] == h);
        }
        if ga.len() > 0 {
            let h = ga[ga.len() - 1];
            assert(g[ga.len() - 1] == h);
            assert(a.contains(h));
            let k = choose|k: int| 0 <= k < a.len() && a[k] == h;
            assert(s[k] == h);
            if k < p - 1 {
                lemma_holder_le_transitive(s[k], s[p - 1], x);
            }
        }
        lemma_insert_position_unique(g, x, ga.len() as int);
        assert(g.insert(ga.len() as int, x) =~= ga.push(x) + gb);
    }
}

/// Sorting a list sorts each office's group and moves no record from one
/// group to another: records of one office with the same given name stay in
/// the order they had.
pub proof fn lemma_group_of_sorted(s: Seq<Holder>, office: Seq<char>)
    ensures
        office_group(sorted(s), office) == sorted(office_group(s, office)),
    decreases s.len(),
{
    if s.len() > 0 {
        let d = s.drop_last();
        lemma_group_of_sorted(d, office);
        lemma_sorted(d);
        lemma_group_of_insert(sorted(d), s.last(), office);
        if s.last().job_title == office {
            assert(office_group(s, office).drop_last() =~= office_group(d, office));
        }
    }
}

/// The group of an office after the vacancies are added: the records that
/// were there, else one vacancy where the office is among `offices`, else
/// nothing.
pub proof fn lemma_group_with_vacancies(
    list: Seq<Holder>,
    offices: Seq<Seq<char>>,
    office: Seq<char>,
)
    ensures
        office_group(with_vacancies(list, offices), office) == if has_office(list, office) {
            office_group(list, office)
        } else if offices.contains(office) {
            seq![vacancy(office)]
        } else {
            Seq::empty()
        },
    decreases offices.len(),
{
    lemma_group_empty(list, office);
    if offices.len() == 0 {
    } else {
        let rest = offices.drop_last();
        let last = offices.last();
        let before = with_vacancies(list, rest);
        lemma_group_with_vacancies(list, rest, office);
        lemma_group_with_vacancies(list, rest, last);
        lemma_group_empty(before, last);
        lemma_group_empty(list, last);
        assert(offices[offices.len() - 1] == last);
        if rest.contains(office) {
            let i = choose|i: int| 0 <= i < rest.len() && rest[i] == office;
            assert(offices[i] == office);
        }
        if offices.contains(office) && office != last {
            let i = choose|i: int| 0 <= i < offices.len() && offices[i] == office;
            assert(rest[i] == office);
        }
        if !has_office(before, last) {
            assert(before.push(vacancy(last)).drop_last() =~= before);
            if office == last {
                assert(Seq::<Holder>::empty().push(vacancy(last)) =~= seq![vacancy(office)]);
            }
        }
    }
}

/// A directory is sorted by office, and by given name within an office.
pub proof fn lemma_directory_is_sorted(primary: Option<JsonValue>, secondary: Option<JsonValue>)
    requires
        directory(primary, secondary) is Ok,
    ensures
        is_sorted(directory(primary, secondary)->Ok_0),
{
    let list = primary_holders(feed_entries(primary, Feed::Primary)->Ok_0)->Ok_0;
    let offices = catalog_offices(feed_entries(secondary, Feed::Secondary)->Ok_0)->Ok_0;
    lemma_sorted(with_vacancies(list, offices));
}

/// The same two documents give the same directory, or the same failure.
pub proof fn lemma_directory_is_a_function(
    primary: Option<JsonValue>,
    secondary: Option<JsonValue>,
    first: Result<Seq<Holder>, NoneOptionError>,
    second: Result<Seq<Holder>, NoneOptionError>,
)
    requires
        first == directory(primary, secondary),
        second == directory(primary, secondary),
    ensures
        first == second,
{
}

/// An office that the catalog names and that no record of the primary feed
/// is for has exactly one record in the directory: its vacancy.
pub proof fn lemma_vacancy_of_unheld_office(
    primary: Option<JsonValue>,
    secondary: Option<JsonValue>,
    office: Seq<char>,
)
    requires
        directory(primary, secondary) is Ok,
        catalog_offices(feed_entries(secondary, Feed::Secondary)->Ok_0)->Ok_0.contains(office),
        !has_office(primary_holders(feed_entries(primary, Feed::Primary)->Ok_0)->Ok_0, office),
    ensures
        office_group(directory(primary, secondary)->Ok_0, office) == seq![vacancy(office)],
        vacancy(office).first_name == "vakant"@,
        vacancy(office).reelection_date == "N/A"@,
{
    let list = primary_holders(feed_entries(primary, Feed::Primary)->Ok_0)->Ok_0;
    let offices = catalog_offices(feed_entries(secondary, Feed::Secondary)->Ok_0)->Ok_0;
    let all = with_vacancies(list, offices);
    lemma_group_with_vacancies(list, offices, office);
    lemma_group_of_sorted(all, office);
    let one = seq![vacancy(office)];
    assert(one.drop_last() =~= Seq::<Holder>::empty());
    assert(sorted(one.drop_last()) =~= Seq::<Holder>::empty());
    assert(sorted(one) =~= one);
}

/// An office that a record of the primary feed is for has in the directory
/// exactly the records that the feed has for it, sorted; no vacancy is added
/// to it.
pub proof fn lemma_group_of_held_office(
    primary: Option<JsonValue>,
    secondary: Option<JsonValue>,
    office: Seq<char>,
)
    requires
        directory(primary, secondary) is Ok,
        has_office(primary_holders(feed_entries(primary, Feed::Primary)->Ok_0)->Ok_0, office),
    ensures
        office_group(directory(primary, secondary)->Ok_0, office) == sorted(
            office_group(
                primary_holders(feed_entries(primary, Feed::Primary)->Ok_0)->Ok_0,
                office,
            ),
        ),
{
    let list = primary_holders(feed_entries(primary, Feed::Primary)->Ok_0)->Ok_0;
    let offices = catalog_offices(feed_entries(secondary, Feed::Secondary)->Ok_0)->Ok_0;
    lemma_group_with_vacancies(list, offices, office);
    lemma_group_of_sorted(with_vacancies(list, offices), office);
}

/// A person has one record for each office name that the person's `AMT`
/// lists, in that order and with the person's data; a name is never empty
/// and has no white space at either end, so a piece of `AMT` that holds
/// nothing but white space gives no record.
pub proof fn lemma_one_record_per_office_name(person: Person)
    ensures
        holders_of(person).len() == offices_of(person.amt).len(),
        forall|k: int|
            0 <= k < holders_of(person).len() ==> #[trigger] holders_of(person)[k] == holder_of(
                person,
                offices_of(person.amt)[k],
            ),
        forall|k: int|
            0 <= k < holders_of(person).len() ==> (#[trigger] holders_of(
                person,
            )[k]).job_title.len() > 0 && is_trimmed(holders_of(person)[k].job_title),
{
    lemma_surviving_names(split_commas(person.amt));
    assert forall|k: int| 0 <= k < holders_of(person).len() implies (#[trigger] holders_of(
        person,
    )[k]).job_title.len() > 0 && is_trimmed(holders_of(person)[k].job_title) by {
        assert(holders_of(person)[k].job_title == offices_of(person.amt)[k]);
    }
}

/// Every record of `list` is for an office with a proper name: not empty,
/// and without white space at either end.
pub open spec fn all_named(list: Seq<Holder>) -> bool {
    forall|i: int|
        0 <= i < list.len() ==> (#[trigger] list[i]).job_title.len() > 0 && is_trimmed(
            list[i].job_title,
        )
}

/// The records of the primary feed are for offices with proper names.
pub proof fn lemma_primary_named(entries: Seq<Pair>)
    requires
        primary_holders(entries) is Ok,
    ensures
        all_named(primary_holders(entries)->Ok_0),
    decreases entries.len(),
{
    if entries.len() > 0 {
        lemma_primary_named(entries.drop_last());
        lemma_one_record_per_office_name(person_of(entries.last().value)->Ok_0);
    }
}

/// No office that the catalog names has an empty name.
pub proof fn lemma_catalog_names(entries: Seq<Pair>)
    requires
        catalog_offices(entries) is Ok,
    ensures
        forall|i: int|
            0 <= i < catalog_offices(entries)->Ok_0.len() ==> (#[trigger] catalog_offices(
                entries,
            )->Ok_0[i]).len() > 0,
    decreases entries.len(),
{
    if entries.len() > 0 {
        lemma_catalog_names(entries.drop_last());
    }
}

/// Vacancies for offices with names keep a list titled.
pub proof fn lemma_vacancies_titled(list: Seq<Holder>, offices: Seq<Seq<char>>)
    requires
        all_titled(list),
        forall|i: int| 0 <= i < offices.len() ==> (#[trigger] offices[i]).len() > 0,
    ensures
        all_titled(with_vacancies(list, offices)),
    decreases offices.len(),
{
    if offices.len() > 0 {
        let rest = offices.drop_last();
        assert forall|i: int| 0 <= i < rest.len() implies (#[trigger] rest[i]).len() > 0 by {
            assert(rest[i] == offices[i]);
        }
        lemma_vacancies_titled(list, rest);
        assert(offices[offices.len() - 1] == offices.last());
    }
}

/// Every record of a directory has a title that is not empty. The title of a
/// record of the primary feed has no white space at either end; a vacancy
/// bears the name that the catalog gives its office, as it stands.
pub proof fn lemma_directory_is_titled(primary: Option<JsonValue>, secondary: Option<JsonValue>)
    requires
        directory(primary, secondary) is Ok,
    ensures
        all_titled(directory(primary, secondary)->Ok_0),
        all_named(primary_holders(feed_entries(primary, Feed::Primary)->Ok_0)->Ok_0),
{
    let list = primary_holders(feed_entries(primary, Feed::Primary)->Ok_0)->Ok_0;
    let offices = catalog_offices(feed_entries(secondary, Feed::Secondary)->Ok_0)->Ok_0;
    let all = with_vacancies(list, offices);
    let out = sorted(all);
    lemma_primary_named(feed_entries(primary, Feed::Primary)->Ok_0);
    lemma_catalog_names(feed_entries(secondary, Feed::Secondary)->Ok_0);
    assert forall|i: int| 0 <= i < list.len() implies is_titled(#[trigger] list[i]) by {
        assert(list[i].job_title.len() > 0 && is_trimmed(list[i].job_title));
    }
    lemma_vacancies_titled(list, offices);
    lemma_sorted(all);
    assert forall|i: int| 0 <= i < out.len() implies is_titled(#[trigger] out[i]) by {
        broadcast use vstd::seq_lib::group_to_multiset_ensures;

        assert(out.contains(out[i]));
        assert(all.to_multiset().count(out[i]) > 0);
        assert(all.contains(out[i]));
        let k = choose|k: int| 0 <= k < all.len() && all[k] == out[i];
        assert(is_titled(all[k]));
    }
}

/// A directory holds the records of the primary feed and the vacancies, each
/// as often as it was made, and nothing else.
pub proof fn lemma_directory_records(primary: Option<JsonValue>, secondary: Option<JsonValue>)
    requires
        directory(primary, secondary) is Ok,
    ensures
        directory(primary, secondary)->Ok_0.to_multiset() == with_vacancies(
            primary_holders(feed_entries(primary, Feed::Primary)->Ok_0)->Ok_0,
            catalog_offices(feed_entries(secondary, Feed::Secondary)->Ok_0)->Ok_0,
        ).to_multiset(),
{
    let list = primary_holders(feed_entries(primary, Feed::Primary)->Ok_0)->Ok_0;
    let offices = catalog_offices(feed_entries(secondary, Feed::Secondary)->Ok_0)->Ok_0;
    lemma_sorted(with_vacancies(list, offices));
}

/// The office names that the primary feed lists: those of each person's
/// `AMT`, person by person.
pub open spec fn primary_offices(entries: Seq<Pair>) -> Seq<Seq<char>>
    decreases entries.len(),
{
    if entries.len() == 0 {
        Seq::empty()
    } else {
        primary_offices(entries.drop_last()) + offices_of(
            person_of(entries.last().value)->Ok_0.amt,
        )
    }
}

/// The primary feed gives one record for each office name that it lists, in
/// that order and for that office.
pub proof fn lemma_primary_titles(entries: Seq<Pair>)
    requires
        primary_holders(entries) is Ok,
    ensures
        primary_holders(entries)->Ok_0.len() == primary_offices(entries).len(),
        forall|k: int|
            0 <= k < primary_offices(entries).len() ==> (#[trigger] primary_holders(
                entries,
            )->Ok_0[k]).job_title == primary_offices(entries)[k],
    decreases entries.len(),
{
    if entries.len() > 0 {
        let rest = entries.drop_last();
        let person = person_of(entries.last().value)->Ok_0;
        let before = primary_holders(rest)->Ok_0;
        let list = primary_holders(entries)->Ok_0;
        lemma_primary_titles(rest);
        lemma_one_record_per_office_name(person);
        assert forall|k: int| 0 <= k < primary_offices(entries).len() implies (#[trigger] list[k]).job_title
            == primary_offices(entries)[k] by {
            if k < before.len() {
                assert(list[k] == before[k]);
            } else {
                assert(list[k] == holders_of(person)[k - before.len()]);
            }
        }
    }
}

/// The offices among `offices` that no record of `list` is for, each once.
pub open spec fn unheld(list: Seq<Holder>, offices: Seq<Seq<char>>) -> Set<Seq<char>> {
    Set::new(|office: Seq<char>| offices.contains(office) && !has_office(list, office))
}

/// An office is among `offices` when it is the last of them or among the
/// others.
proof fn lemma_contains_last(offices: Seq<Seq<char>>, office: Seq<char>)
    requires
        offices.len() > 0,
    ensures
        offices.contains(office) <==> offices.drop_last().contains(office) || office
            == offices.last(),
{
    let rest = offices.drop_last();
    if offices.contains(office) {
        let i = choose|i: int| 0 <= i < offices.len() && offices[i] == office;
        if i < rest.len() {
            assert(rest[i] == office);
        }
    }
    if rest.contains(office) {
        let i = choose|i: int| 0 <= i < rest.len() && rest[i] == office;
        assert(offices[i] == office);
    }
    assert(offices[offices.len() - 1] == offices.last());
}

/// The vacancies add one record for each office among `offices` that no
/// record of `list` is for, however often the office is named.
pub proof fn lemma_vacancies_count(list: Seq<Holder>, offices: Seq<Seq<char>>)
    ensures
        unheld(list, offices).finite(),
        with_vacancies(list, offices).len() == list.len() + unheld(list, offices).len(),
    decreases offices.len(),
{
    if offices.len() == 0 {
        assert(unheld(list, offices) =~= Set::<Seq<char>>::empty());
    } else {
        let rest = offices.drop_last();
        let last = offices.last();
        let before = with_vacancies(list, rest);
        lemma_vacancies_count(list, rest);
        lemma_group_with_vacancies(list, rest, last);
        lemma_group_empty(before, last);
        lemma_group_empty(list, last);
        assert forall|office: Seq<char>|
            offices.contains(office) <==> rest.contains(office) || office == last by {
            lemma_contains_last(offices, office);
        }
        if has_office(before, last) {
            assert(unheld(list, offices) =~= unheld(list, rest));
        } else {
            assert(unheld(list, offices) =~= unheld(list, rest).insert(last));
            assert(!unheld(list, rest).contains(last));
        }
    }
}

/// A directory has a record for an office just when the primary feed has one
/// for it or the catalog names it: no office is dropped and none is made up.
pub proof fn lemma_directory_offices(
    primary: Option<JsonValue>,
    secondary: Option<JsonValue>,
    office: Seq<char>,
)
    requires
        directory(primary, secondary) is Ok,
    ensures
        has_office(directory(primary, secondary)->Ok_0, office) <==> has_office(
            primary_holders(feed_entries(primary, Feed::Primary)->Ok_0)->Ok_0,
            office,
        ) || catalog_offices(feed_entries(secondary, Feed::Secondary)->Ok_0)->Ok_0.contains(office),
{
    let list = primary_holders(feed_entries(primary, Feed::Primary)->Ok_0)->Ok_0;
    let offices = catalog_offices(feed_entries(secondary, Feed::Secondary)->Ok_0)->Ok_0;
    let all = with_vacancies(list, offices);
    lemma_group_with_vacancies(list, offices, office);
    lemma_group_of_sorted(all, office);
    lemma_sorted(office_group(all, office));
    lemma_group_empty(sorted(all), office);
    lemma_group_empty(list, office);
}

/// A directory has as many records as the primary feed gives, one for each
/// office name in each person's `AMT`, and one more for each office that the
/// catalog names and no record of the primary feed is for; an office that
/// the catalog names several times counts once.
pub proof fn lemma_directory_size(primary: Option<JsonValue>, secondary: Option<JsonValue>)
    requires
        directory(primary, secondary) is Ok,
    ensures
        unheld(
            primary_holders(feed_entries(primary, Feed::Primary)->Ok_0)->Ok_0,
            catalog_offices(feed_entries(secondary, Feed::Secondary)->Ok_0)->Ok_0,
        ).finite(),
        directory(primary, secondary)->Ok_0.len() == primary_holders(
            feed_entries(primary, Feed::Primary)->Ok_0,
        )->Ok_0.len() + unheld(
            primary_holders(feed_entries(primary, Feed::Primary)->Ok_0)->Ok_0,
            catalog_offices(feed_entries(secondary, Feed::Secondary)->Ok_0)->Ok_0,
        ).len(),
{
    let list = primary_holders(feed_entries(primary, Feed::Primary)->Ok_0)->Ok_0;
    let offices = catalog_offices(feed_entries(secondary, Feed::Secondary)->Ok_0)->Ok_0;
    lemma_vacancies_count(list, offices);
    lemma_sorted(with_vacancies(list, offices));
}

} // verus!
