//! The directory of office holders: the two feeds are merged into one list,
//! sorted by office and then by given name.

use crate::errors::{Feed, Field, NoneOptionError, Part};
use crate::json::{find, json_document, lookup, member_views, parse, Json, JsonValue, Member, Pair};
use crate::laws::lemma_directory_is_titled;
use crate::text::{
    is_trimmed, lemma_bytes_le_total, lemma_bytes_le_transitive, lemma_text_le_antisymmetric,
    office_names, offices_of, str_le, text_le, texts,
};
use vstd::utf8::encode_utf8;
use vstd::prelude::*;

verus! {

/// One holder of one office, or the note that an office is vacant.
#[derive(Debug, PartialEq, Eq)]
pub struct ElectedUser {
    pub job_title: String,
    pub email: String,
    pub first_name: String,
    pub sur_name: String,
    pub nick_name: String,
    pub reelection_date: String,
}

/// The mathematical value of an [`ElectedUser`].
pub struct Holder {
    pub job_title: Seq<char>,
    pub email: Seq<char>,
    pub first_name: Seq<char>,
    pub sur_name: Seq<char>,
    pub nick_name: Seq<char>,
    pub reelection_date: Seq<char>,
}

impl View for ElectedUser {
    type V = Holder;

    open spec fn view(&self) -> Holder {
        Holder {
            job_title: self.job_title@,
            email: self.email@,
            first_name: self.first_name@,
            sur_name: self.sur_name@,
            nick_name: self.nick_name@,
            reelection_date: self.reelection_date@,
        }
    }
}

/// The values of a list of records.
pub open spec fn holders(users: Seq<ElectedUser>) -> Seq<Holder> {
    users.map_values(|u: ElectedUser| u@)
}

/// The given name that marks a vacant office.
pub open spec fn vakant() -> Seq<char> {
    "vakant"@
}

/// The record of an office that nobody holds.
pub open spec fn vacancy(office: Seq<char>) -> Holder {
    Holder {
        job_title: office,
        email: Seq::empty(),
        first_name: vakant(),
        sur_name: Seq::empty(),
        nick_name: Seq::empty(),
        reelection_date: "N/A"@,
    }
}

/// The title of a record is as the directory wants it: it is not empty, and
/// it has no white space at either end unless the record is the vacancy of
/// an office that the catalog names so.
pub open spec fn is_titled(holder: Holder) -> bool {
    holder.job_title.len() > 0 && (is_trimmed(holder.job_title) || holder == vacancy(
        holder.job_title,
    ))
}

/// Every record of `list` is titled as the directory wants it.
pub open spec fn all_titled(list: Seq<Holder>) -> bool {
    forall|i: int| 0 <= i < list.len() ==> is_titled(#[trigger] list[i])
}

/// What a record of the primary feed says of one person.
pub struct Person {
    pub amt: Seq<char>,
    pub email: Seq<char>,
    pub first_name: Seq<char>,
    pub sur_name: Seq<char>,
    pub nick_name: Seq<char>,
    pub neuwahl: Seq<char>,
    pub jahr: Seq<char>,
}

/// The entries of a feed: the document has to be an object.
pub open spec fn feed_entries(document: Option<JsonValue>, feed: Feed) -> Result<
    Seq<Pair>,
    NoneOptionError,
> {
    match document {
        None => Err(NoneOptionError { feed, part: Part::Json }),
        Some(value) => match value.members() {
            None => Err(NoneOptionError { feed, part: Part::Document }),
            Some(entries) => Ok(entries),
        },
    }
}

/// The record inside an entry: the entry has to be an object whose member
/// `DATENSATZ` is an object.
pub open spec fn record_of(entry: JsonValue, feed: Feed) -> Result<Seq<Pair>, NoneOptionError> {
    match entry.members() {
        None => Err(NoneOptionError { feed, part: Part::Record }),
        Some(members) => match lookup(members, Field::Datensatz.spec_key()) {
            Some(JsonValue::Object(record)) => Ok(record),
            _ => Err(NoneOptionError { feed, part: Part::Field(Field::Datensatz) }),
        },
    }
}

/// The text of a member of a record: it has to be there and to be a string.
pub open spec fn text_field(record: Seq<Pair>, field: Field, feed: Feed) -> Result<
    Seq<char>,
    NoneOptionError,
> {
    match lookup(record, field.spec_key()) {
        Some(JsonValue::Text(text)) => Ok(text),
        _ => Err(NoneOptionError { feed, part: Part::Field(field) }),
    }
}

/// The person of an entry of the primary feed. All seven members are
/// required; the first that fails, in the order of the fields of [`Person`],
/// is reported.
pub open spec fn person_of(entry: JsonValue) -> Result<Person, NoneOptionError> {
    match record_of(entry, Feed::Primary) {
        Err(e) => Err(e),
        Ok(record) => {
            let amt = text_field(record, Field::Amt, Feed::Primary);
            let email = text_field(record, Field::Email, Feed::Primary);
            let first_name = text_field(record, Field::Vorname, Feed::Primary);
            let sur_name = text_field(record, Field::Nachname, Feed::Primary);
            let nick_name = text_field(record, Field::Biername, Feed::Primary);
            let neuwahl = text_field(record, Field::Neuwahl, Feed::Primary);
            let jahr = text_field(record, Field::Jahr, Feed::Primary);
            if amt is Err {
                Err(amt->Err_0)
            } else if email is Err {
                Err(email->Err_0)
            } else if first_name is Err {
                Err(first_name->Err_0)
            } else if sur_name is Err {
                Err(sur_name->Err_0)
            } else if nick_name is Err {
                Err(nick_name->Err_0)
            } else if neuwahl is Err {
                Err(neuwahl->Err_0)
            } else if jahr is Err {
                Err(jahr->Err_0)
            } else {
                Ok(
                    Person {
                        amt: amt->Ok_0,
                        email: email->Ok_0,
                        first_name: first_name->Ok_0,
                        sur_name: sur_name->Ok_0,
                        nick_name: nick_name->Ok_0,
                        neuwahl: neuwahl->Ok_0,
                        jahr: jahr->Ok_0,
                    },
                )
            }
        },
    }
}

/// The record of `person` as holder of `office`.
pub open spec fn holder_of(person: Person, office: Seq<char>) -> Holder {
    Holder {
        job_title: office,
        email: person.email,
        first_name: person.first_name,
        sur_name: person.sur_name,
        nick_name: person.nick_name,
        reelection_date: person.neuwahl + " "@ + person.jahr,
    }
}

/// One record for each office that the person's `AMT` lists, in that order.
pub open spec fn holders_of(person: Person) -> Seq<Holder> {
    offices_of(person.amt).map_values(|office: Seq<char>| holder_of(person, office))
}

/// The members of the record inside `entry`.
fn entry_record(entry: &Json, feed: Feed) -> (r: Result<&Vec<Member>, NoneOptionError>)
    ensures
        match r {
            Ok(record) => record_of(entry@, feed) == Ok::<Seq<Pair>, NoneOptionError>(
                member_views(record@),
            ),
            Err(e) => record_of(entry@, feed) == Err::<Seq<Pair>, NoneOptionError>(e),
        },
{
    match entry.members() {
        None => Err(NoneOptionError { feed, part: Part::Record }),
        Some(members) => match find(members, Field::Datensatz.key()) {
            None => Err(NoneOptionError { feed, part: Part::Field(Field::Datensatz) }),
            Some(value) => match value.members() {
                None => Err(NoneOptionError { feed, part: Part::Field(Field::Datensatz) }),
                Some(record) => Ok(record),
            },
        },
    }
}

/// The text of the member `field` of `record`.
fn record_text<'a>(record: &'a Vec<Member>, field: Field, feed: Feed) -> (r: Result<
    &'a String,
    NoneOptionError,
>)
    ensures
        match r {
            Ok(text) => text_field(member_views(record@), field, feed) == Ok::<
                Seq<char>,
                NoneOptionError,
            >(text@),
            Err(e) => text_field(member_views(record@), field, feed) == Err::<
                Seq<char>,
                NoneOptionError,
            >(e),
        },
{
    match find(record, field.key()) {
        None => Err(NoneOptionError { feed, part: Part::Field(field) }),
        Some(value) => match value.text() {
            None => Err(NoneOptionError { feed, part: Part::Field(field) }),
            Some(text) => Ok(text),
        },
    }
}

/// The order of the directory: by office, and by given name within an
/// office; texts compare byte by byte.
pub open spec fn holder_le(a: Holder, b: Holder) -> bool {
    if a.job_title == b.job_title {
        text_le(a.first_name, b.first_name)
    } else {
        text_le(a.job_title, b.job_title)
    }
}

/// No record stands before one that the order puts ahead of it.
pub open spec fn is_sorted(s: Seq<Holder>) -> bool {
    forall|i: int, j: int| 0 <= i < j < s.len() ==> holder_le(s[i], s[j])
}

/// Where `x` goes into the sorted `s`: behind every record that is not
/// ordered after it.
pub open spec fn insert_position(s: Seq<Holder>, x: Holder) -> int
    decreases s.len(),
{
    if s.len() == 0 || holder_le(s.last(), x) {
        s.len() as int
    } else {
        insert_position(s.drop_last(), x)
    }
}

/// `s` with `x` put in at its place.
pub open spec fn insert_sorted(s: Seq<Holder>, x: Holder) -> Seq<Holder> {
    s.insert(insert_position(s, x), x)
}

/// The records of `s` in the order of the directory. Records that the order
/// does not tell apart keep the order they have in `s`.
pub open spec fn sorted(s: Seq<Holder>) -> Seq<Holder>
    decreases s.len(),
{
    if s.len() == 0 {
        s
    } else {
        insert_sorted(sorted(s.drop_last()), s.last())
    }
}

pub proof fn lemma_holder_le_total(a: Holder, b: Holder)
    ensures
        holder_le(a, b) || holder_le(b, a),
{
    lemma_bytes_le_total(encode_utf8(a.first_name), encode_utf8(b.first_name));
    lemma_bytes_le_total(encode_utf8(a.job_title), encode_utf8(b.job_title));
}

pub proof fn lemma_holder_le_transitive(a: Holder, b: Holder, c: Holder)
    requires
        holder_le(a, b),
        holder_le(b, c),
    ensures
        holder_le(a, c),
{
    if a.job_title == b.job_title && b.job_title == c.job_title {
        lemma_bytes_le_transitive(
            encode_utf8(a.first_name),
            encode_utf8(b.first_name),
            encode_utf8(c.first_name),
        );
    } else if a.job_title == b.job_title || b.job_title == c.job_title {
    } else {
        lemma_bytes_le_transitive(
            encode_utf8(a.job_title),
            encode_utf8(b.job_title),
            encode_utf8(c.job_title),
        );
        if a.job_title == c.job_title {
            lemma_text_le_antisymmetric(a.job_title, b.job_title);
        }
    }
}

/// The place of `x` in `s`: every record from there on is ordered after `x`,
/// and the one before it is not.
pub proof fn lemma_insert_position(s: Seq<Holder>, x: Holder)
    ensures
        0 <= insert_position(s, x) <= s.len(),
        forall|j: int| insert_position(s, x) <= j < s.len() ==> !holder_le(#[trigger] s[j], x),
        insert_position(s, x) > 0 ==> holder_le(s[insert_position(s, x) - 1], x),
    decreases s.len(),
{
    if s.len() == 0 || holder_le(s.last(), x) {
    } else {
        let d = s.drop_last();
        lemma_insert_position(d, x);
        assert forall|j: int| insert_position(s, x) <= j < s.len() implies !holder_le(
            #[trigger] s[j],
            x,
        ) by {
            if j < d.len() {
                assert(s[j] == d[j]);
            }
        }
        if insert_position(s, x) > 0 {
            assert(s[insert_position(s, x) - 1] == d[insert_position(d, x) - 1]);
        }
    }
}

/// A place of which both statements of [`lemma_insert_position`] hold is the
/// place.
pub proof fn lemma_insert_position_unique(s: Seq<Holder>, x: Holder, p: int)
    requires
        0 <= p <= s.len(),
        forall|j: int| p <= j < s.len() ==> !holder_le(#[trigger] s[j], x),
        p > 0 ==> holder_le(s[p - 1], x),
    ensures
        insert_position(s, x) == p,
    decreases s.len(),
{
    if s.len() == 0 || holder_le(s.last(), x) {
        if p < s.len() {
            assert(!holder_le(s[s.len() - 1], x));
        }
    } else {
        lemma_insert_position_unique(s.drop_last(), x, p);
    }
}

/// Putting a record in at its place keeps a sorted list sorted, and adds the
/// record and nothing else.
pub proof fn lemma_insert_sorted(s: Seq<Holder>, x: Holder)
    requires
        is_sorted(s),
    ensures
        is_sorted(insert_sorted(s, x)),
        insert_sorted(s, x).to_multiset() == s.to_multiset().insert(x),
        insert_sorted(s, x).len() == s.len() + 1,
{
    let p = insert_position(s, x);
    let t = insert_sorted(s, x);
    lemma_insert_position(s, x);
    vstd::seq_lib::to_multiset_insert(s, p, x);
    assert forall|i: int, j: int| 0 <= i < j < t.len() implies holder_le(t[i], t[j]) by {
        if j < p {
            assert(t[i] == s[i] && t[j] == s[j]);
        } else if j == p {
            assert(t[i] == s[i] && t[j] == x);
            if i < p - 1 {
                lemma_holder_le_transitive(s[i], s[p - 1], x);
            }
        } else if i == p {
            assert(t[i] == x && t[j] == s[j - 1]);
            assert(!holder_le(s[j - 1], x));
            lemma_holder_le_total(x, s[j - 1]);
        } else if i < p {
            assert(t[i] == s[i] && t[j] == s[j - 1]);
        } else {
            assert(t[i] == s[i - 1] && t[j] == s[j - 1]);
        }
    }
}

/// Sorting gives a sorted list of the same records.
pub proof fn lemma_sorted(s: Seq<Holder>)
    ensures
        is_sorted(sorted(s)),
        sorted(s).to_multiset() == s.to_multiset(),
        sorted(s).len() == s.len(),
    decreases s.len(),
{
    if s.len() > 0 {
        lemma_sorted(s.drop_last());
        lemma_insert_sorted(sorted(s.drop_last()), s.last());
        vstd::seq_lib::to_multiset_build(s.drop_last(), s.last());
        assert(s.drop_last().push(s.last()) =~= s);
    }
}

/// Whether `a` stands before `b` in the directory, or may stand there.
pub fn user_le(a: &ElectedUser, b: &ElectedUser) -> (r: bool)
    ensures
        r == holder_le(a@, b@),
{
    if a.job_title == b.job_title {
        str_le(a.first_name.as_str(), b.first_name.as_str())
    } else {
        str_le(a.job_title.as_str(), b.job_title.as_str())
    }
}

/// Puts `user` into the sorted `list` at its place.
pub fn insert_user(list: &mut Vec<ElectedUser>, user: ElectedUser)
    ensures
        holders(final(list)@) == insert_sorted(holders(old(list)@), user@),
{
    let ghost s = holders(list@);
    let mut p: usize = list.len();
    while p > 0 && !user_le(&list[p - 1], &user)
        invariant
            p <= list.len(),
            s == holders(list@),
            forall|j: int| p <= j < s.len() ==> !holder_le(#[trigger] s[j], user@),
        decreases p,
    {
        p = p - 1;
    }
    proof {
        lemma_insert_position_unique(s, user@, p as int);
        assert(holders(list@.insert(p as int, user)) =~= s.insert(p as int, user@));
    }
    list.insert(p, user);
}

/// The records of the primary feed, entry by entry in the order of the
/// entries. The first entry that is not as required fails the whole feed.
pub open spec fn primary_holders(entries: Seq<Pair>) -> Result<Seq<Holder>, NoneOptionError>
    decreases entries.len(),
{
    if entries.len() == 0 {
        Ok(Seq::empty())
    } else {
        match primary_holders(entries.drop_last()) {
            Err(e) => Err(e),
            Ok(before) => match person_of(entries.last().value) {
                Err(e) => Err(e),
                Ok(person) => Ok(before + holders_of(person)),
            },
        }
    }
}

/// The office that an entry of the catalog names: its `AMT`, whole and as it
/// stands. An empty `AMT` names no office.
pub open spec fn catalog_entry(entry: JsonValue) -> Result<Seq<Seq<char>>, NoneOptionError> {
    match record_of(entry, Feed::Secondary) {
        Err(e) => Err(e),
        Ok(record) => match text_field(record, Field::Amt, Feed::Secondary) {
            Err(e) => Err(e),
            Ok(amt) => Ok(
                if amt.len() > 0 {
                    seq![amt]
                } else {
                    Seq::empty()
                },
            ),
        },
    }
}

/// The offices that the catalog names, in the order of its entries.
pub open spec fn catalog_offices(entries: Seq<Pair>) -> Result<Seq<Seq<char>>, NoneOptionError>
    decreases entries.len(),
{
    if entries.len() == 0 {
        Ok(Seq::empty())
    } else {
        match catalog_offices(entries.drop_last()) {
            Err(e) => Err(e),
            Ok(before) => match catalog_entry(entries.last().value) {
                Err(e) => Err(e),
                Ok(offices) => Ok(before + offices),
            },
        }
    }
}

/// Some record of `list` is for `office`.
pub open spec fn has_office(list: Seq<Holder>, office: Seq<char>) -> bool {
    exists|i: int| 0 <= i < list.len() && (#[trigger] list[i]).job_title == office
}

/// `list`, and behind it one vacancy for each of `offices` that has no record
/// yet when its turn comes.
pub open spec fn with_vacancies(list: Seq<Holder>, offices: Seq<Seq<char>>) -> Seq<Holder>
    decreases offices.len(),
{
    if offices.len() == 0 {
        list
    } else {
        let before = with_vacancies(list, offices.drop_last());
        if has_office(before, offices.last()) {
            before
        } else {
            before.push(vacancy(offices.last()))
        }
    }
}

/// The directory that the two feeds give: the records of the primary feed
/// and a vacancy for every office that only the catalog names, sorted. It
/// fails with what the primary feed lacks, else with what the catalog lacks.
pub open spec fn directory(primary: Option<JsonValue>, secondary: Option<JsonValue>) -> Result<
    Seq<Holder>,
    NoneOptionError,
> {
    match feed_entries(primary, Feed::Primary) {
        Err(e) => Err(e),
        Ok(entries) => match primary_holders(entries) {
            Err(e) => Err(e),
            Ok(list) => match feed_entries(secondary, Feed::Secondary) {
                Err(e) => Err(e),
                Ok(catalog) => match catalog_offices(catalog) {
                    Err(e) => Err(e),
                    Ok(offices) => Ok(sorted(with_vacancies(list, offices))),
                },
            },
        },
    }
}

/// Appends to `out` the records of the person in `entry`.
fn push_person(entry: &Json, out: &mut Vec<ElectedUser>) -> (r: Result<(), NoneOptionError>)
    ensures
        match r {
            Ok(_) => person_of(entry@) is Ok && holders(final(out)@) == holders(old(out)@)
                + holders_of(person_of(entry@)->Ok_0),
            Err(e) => person_of(entry@) == Err::<Person, NoneOptionError>(e) && final(out)@ == old(
                out,
            )@,
        },
{
    let record = match entry_record(entry, Feed::Primary) {
        Ok(record) => record,
        Err(e) => return Err(e),
    };
    let amt = match record_text(record, Field::Amt, Feed::Primary) {
        Ok(text) => text,
        Err(e) => return Err(e),
    };
    let email = match record_text(record, Field::Email, Feed::Primary) {
        Ok(text) => text,
        Err(e) => return Err(e),
    };
    let first_name = match record_text(record, Field::Vorname, Feed::Primary) {
        Ok(text) => text,
        Err(e) => return Err(e),
    };
    let sur_name = match record_text(record, Field::Nachname, Feed::Primary) {
        Ok(text) => text,
        Err(e) => return Err(e),
    };
    let nick_name = match record_text(record, Field::Biername, Feed::Primary) {
        Ok(text) => text,
        Err(e) => return Err(e),
    };
    let neuwahl = match record_text(record, Field::Neuwahl, Feed::Primary) {
        Ok(text) => text,
        Err(e) => return Err(e),
    };
    let jahr = match record_text(record, Field::Jahr, Feed::Primary) {
        Ok(text) => text,
        Err(e) => return Err(e),
    };
    let ghost person = person_of(entry@)->Ok_0;
    let mut reelection_date = neuwahl.clone();
    reelection_date.append(" ");
    reelection_date.append(jahr.as_str());
    let offices = office_names(amt.as_str());
    let ghost names = texts(offices@);
    let ghost start = holders(out@);
    proof {
        assert(start + holders_of(person).take(0) =~= start);
    }
    for office in it: offices
        invariant
            it.seq() == offices@,
            names == texts(offices@),
            names == offices_of(person.amt),
            email@ == person.email,
            first_name@ == person.first_name,
            sur_name@ == person.sur_name,
            nick_name@ == person.nick_name,
            reelection_date@ == person.neuwahl + " "@ + person.jahr,
            holders(out@) == start + holders_of(person).take(it.index() as int),
    {
        let ghost k = it.index() as int;
        let user = ElectedUser {
            job_title: office,
            email: email.clone(),
            first_name: first_name.clone(),
            sur_name: sur_name.clone(),
            nick_name: nick_name.clone(),
            reelection_date: reelection_date.clone(),
        };
        proof {
            assert(office@ == names[k]);
            assert(user@ == holders_of(person)[k]);
            assert(holders(out@.push(user)) =~= holders(out@).push(user@));
            assert(holders_of(person).take(k + 1) =~= holders_of(person).take(k).push(user@));
            assert(holders(out@.push(user)) =~= start + holders_of(person).take(k + 1));
        }
        out.push(user);
    }
    proof {
        assert(holders_of(person).take(names.len() as int) =~= holders_of(person));
    }
    Ok(())
}

/// Once a part of the primary feed has failed, the whole feed fails the same
/// way.
pub proof fn lemma_primary_fails_early(entries: Seq<Pair>, k: int)
    requires
        0 <= k <= entries.len(),
        primary_holders(entries.take(k)) is Err,
    ensures
        primary_holders(entries) == primary_holders(entries.take(k)),
    decreases entries.len() - k,
{
    if k == entries.len() {
        assert(entries.take(k) =~= entries);
    } else {
        assert(entries.drop_last().take(k) =~= entries.take(k));
        lemma_primary_fails_early(entries.drop_last(), k);
    }
}

/// Once a part of the catalog has failed, the whole catalog fails the same
/// way.
pub proof fn lemma_catalog_fails_early(entries: Seq<Pair>, k: int)
    requires
        0 <= k <= entries.len(),
        catalog_offices(entries.take(k)) is Err,
    ensures
        catalog_offices(entries) == catalog_offices(entries.take(k)),
    decreases entries.len() - k,
{
    if k == entries.len() {
        assert(entries.take(k) =~= entries);
    } else {
        assert(entries.drop_last().take(k) =~= entries.take(k));
        lemma_catalog_fails_early(entries.drop_last(), k);
    }
}

/// The records of the primary feed's entries.
pub fn collect_holders(entries: &Vec<Member>) -> (r: Result<Vec<ElectedUser>, NoneOptionError>)
    ensures
        match r {
            Ok(list) => primary_holders(member_views(entries@)) == Ok::<
                Seq<Holder>,
                NoneOptionError,
            >(holders(list@)),
            Err(e) => primary_holders(member_views(entries@)) == Err::<
                Seq<Holder>,
                NoneOptionError,
            >(e),
        },
{
    let ghost views = member_views(entries@);
    let mut list: Vec<ElectedUser> = Vec::new();
    let mut i: usize = 0;
    proof {
        assert(holders(list@) =~= Seq::<Holder>::empty());
    }
    while i < entries.len()
        invariant
            i <= entries.len(),
            views == member_views(entries@),
            primary_holders(views.take(i as int)) == Ok::<Seq<Holder>, NoneOptionError>(
                holders(list@),
            ),
        decreases entries.len() - i,
    {
        proof {
            assert(views.take(i + 1).drop_last() =~= views.take(i as int));
            assert(views.take(i + 1).last().value == entries@[i as int].value@);
        }
        match push_person(&entries[i].value, &mut list) {
            Ok(_) => {},
            Err(e) => {
                proof {
                    lemma_primary_fails_early(views, i + 1);
                }
                return Err(e);
            },
        }
        i = i + 1;
    }
    proof {
        assert(views.take(i as int) =~= views);
    }
    Ok(list)
}

/// The offices that the catalog's entries name.
pub fn collect_offices(entries: &Vec<Member>) -> (r: Result<Vec<String>, NoneOptionError>)
    ensures
        match r {
            Ok(offices) => catalog_offices(member_views(entries@)) == Ok::<
                Seq<Seq<char>>,
                NoneOptionError,
            >(texts(offices@)),
            Err(e) => catalog_offices(member_views(entries@)) == Err::<
                Seq<Seq<char>>,
                NoneOptionError,
            >(e),
        },
{
    let ghost views = member_views(entries@);
    let mut offices: Vec<String> = Vec::new();
    let mut i: usize = 0;
    proof {
        assert(texts(offices@) =~= Seq::<Seq<char>>::empty());
    }
    while i < entries.len()
        invariant
            i <= entries.len(),
            views == member_views(entries@),
            catalog_offices(views.take(i as int)) == Ok::<Seq<Seq<char>>, NoneOptionError>(
                texts(offices@),
            ),
        decreases entries.len() - i,
    {
        proof {
            assert(views.take(i + 1).drop_last() =~= views.take(i as int));
            assert(views.take(i + 1).last().value == entries@[i as int].value@);
        }
        let record = match entry_record(&entries[i].value, Feed::Secondary) {
            Ok(record) => record,
            Err(e) => {
                proof {
                    lemma_catalog_fails_early(views, i + 1);
                }
                return Err(e);
            },
        };
        let amt = match record_text(record, Field::Amt, Feed::Secondary) {
            Ok(text) => text,
            Err(e) => {
                proof {
                    lemma_catalog_fails_early(views, i + 1);
                }
                return Err(e);
            },
        };
        if !amt.as_str().is_empty() {
            let name = amt.clone();
            proof {
                assert(texts(offices@.push(name)) =~= texts(offices@) + seq![amt@]);
            }
            offices.push(name);
        } else {
            proof {
                assert(texts(offices@) + Seq::<Seq<char>>::empty() =~= texts(offices@));
            }
        }
        i = i + 1;
    }
    proof {
        assert(views.take(i as int) =~= views);
    }
    Ok(offices)
}

/// Whether some record of `list` is for `office`.
pub fn holds_office(list: &Vec<ElectedUser>, office: &String) -> (r: bool)
    ensures
        r == has_office(holders(list@), office@),
{
    let mut i: usize = 0;
    while i < list.len()
        invariant
            i <= list.len(),
            forall|j: int| 0 <= j < i ==> (#[trigger] holders(list@)[j]).job_title != office@,
        decreases list.len() - i,
    {
        if list[i].job_title == *office {
            assert(holders(list@)[i as int].job_title == office@);
            return true;
        }
        i = i + 1;
    }
    false
}

/// The record of the vacant `office`.
pub fn vacant(office: String) -> (r: ElectedUser)
    ensures
        r@ == vacancy(office@),
{
    ElectedUser {
        job_title: office,
        email: String::new(),
        first_name: String::from_str("vakant"),
        sur_name: String::new(),
        nick_name: String::new(),
        reelection_date: String::from_str("N/A"),
    }
}

/// Appends to `list` a vacancy for each of `offices` that has no record yet.
pub fn add_vacancies(list: &mut Vec<ElectedUser>, offices: Vec<String>)
    ensures
        holders(final(list)@) == with_vacancies(holders(old(list)@), texts(offices@)),
{
    let ghost start = holders(list@);
    let ghost names = texts(offices@);
    proof {
        assert(names.take(0) =~= Seq::<Seq<char>>::empty());
    }
    for office in it: offices
        invariant
            it.seq() == offices@,
            names == texts(offices@),
            holders(list@) == with_vacancies(start, names.take(it.index() as int)),
    {
        let ghost k = it.index() as int;
        proof {
            assert(names.take(k + 1).drop_last() =~= names.take(k));
            assert(names.take(k + 1).last() == office@);
        }
        if !holds_office(list, &office) {
            let user = vacant(office);
            proof {
                assert(holders(list@.push(user)) =~= holders(list@).push(user@));
            }
            list.push(user);
        }
    }
    proof {
        assert(names.take(names.len() as int) =~= names);
    }
}

/// The records of `list` in the order of the directory.
pub fn sort_users(list: Vec<ElectedUser>) -> (r: Vec<ElectedUser>)
    ensures
        holders(r@) == sorted(holders(list@)),
        is_sorted(holders(r@)),
        holders(r@).to_multiset() == holders(list@).to_multiset(),
{
    let ghost all = holders(list@);
    let mut out: Vec<ElectedUser> = Vec::new();
    proof {
        assert(holders(out@) =~= sorted(all.take(0)));
    }
    for user in it: list
        invariant
            it.seq() == list@,
            all == holders(list@),
            holders(out@) == sorted(all.take(it.index() as int)),
    {
        let ghost k = it.index() as int;
        proof {
            assert(all.take(k + 1).drop_last() =~= all.take(k));
            assert(all.take(k + 1).last() == user@);
        }
        insert_user(&mut out, user);
    }
    proof {
        assert(all.take(all.len() as int) =~= all);
        lemma_sorted(all);
    }
    out
}

/// The entries of a feed's document.
fn entries_of(document: &Option<Json>, feed: Feed) -> (r: Result<&Vec<Member>, NoneOptionError>)
    ensures
        match r {
            Ok(entries) => document is Some && feed_entries(Some(document->0@), feed) == Ok::<
                Seq<Pair>,
                NoneOptionError,
            >(member_views(entries@)),
            Err(e) => feed_entries(
                match document {
                    Some(j) => Some(j@),
                    None => None,
                },
                feed,
            ) == Err::<Seq<Pair>, NoneOptionError>(e),
        },
{
    match document {
        None => Err(NoneOptionError { feed, part: Part::Json }),
        Some(json) => match json.members() {
            None => Err(NoneOptionError { feed, part: Part::Document }),
            Some(entries) => Ok(entries),
        },
    }
}

/// The value of a document that may be missing.
pub open spec fn document_view(document: Option<Json>) -> Option<JsonValue> {
    match document {
        Some(json) => Some(json@),
        None => None,
    }
}

/// The directory that two parsed feeds give, `None` standing for a payload
/// that is no JSON.
pub fn aggregate(primary: &Option<Json>, secondary: &Option<Json>) -> (r: Result<
    Vec<ElectedUser>,
    NoneOptionError,
>)
    ensures
        match r {
            Ok(list) => directory(document_view(*primary), document_view(*secondary)) == Ok::<
                Seq<Holder>,
                NoneOptionError,
            >(holders(list@)) && is_sorted(holders(list@)) && all_titled(holders(list@)),
            Err(e) => directory(document_view(*primary), document_view(*secondary)) == Err::<
                Seq<Holder>,
                NoneOptionError,
            >(e),
        },
{
    let entries = match entries_of(primary, Feed::Primary) {
        Ok(entries) => entries,
        Err(e) => return Err(e),
    };
    let mut list = match collect_holders(entries) {
        Ok(list) => list,
        Err(e) => return Err(e),
    };
    let catalog = match entries_of(secondary, Feed::Secondary) {
        Ok(entries) => entries,
        Err(e) => return Err(e),
    };
    let offices = match collect_offices(catalog) {
        Ok(offices) => offices,
        Err(e) => return Err(e),
    };
    add_vacancies(&mut list, offices);
    proof {
        lemma_directory_is_titled(document_view(*primary), document_view(*secondary));
    }
    Ok(sort_users(list))
}

/// The directory that the two feed payloads give.
pub fn get_elected_users(primary_json: &str, sec_json: &str) -> (r: Result<
    Vec<ElectedUser>,
    NoneOptionError,
>)
    ensures
        match r {
            Ok(list) => directory(json_document(primary_json@), json_document(sec_json@)) == Ok::<
                Seq<Holder>,
                NoneOptionError,
            >(holders(list@)) && is_sorted(holders(list@)) && all_titled(holders(list@)),
            Err(e) => directory(json_document(primary_json@), json_document(sec_json@)) == Err::<
                Seq<Holder>,
                NoneOptionError,
            >(e),
        },
{
    let primary = parse(primary_json);
    let secondary = parse(sec_json);
    aggregate(&primary, &secondary)
}

} // verus!
