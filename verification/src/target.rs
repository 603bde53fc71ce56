//! What a connection request asks for: where its fields stand, which database it opens, with
//! which token, and whether the sample is to be seeded.

use vstd::prelude::*;
use vstd::string::*;

use crate::json::{option_view, Json, JsonView};
use crate::text::{
    after_first, ascii_lower, is_white_space_spec, lemma_trimmed_is_bare, same_text, starts_with,
    text_after, to_lower, trim, trim_start_char, trim_start_text, trimmed, without_leading,
    without_prefixes,
};

verus! {

/// The places of a request where a field may stand, in the order in which they are looked at:
/// the request itself, its `profile`, `options` and `secrets`, and the `options` and `secrets`
/// of its profile.
pub open spec fn containers(request: JsonView) -> Seq<Option<JsonView>> {
    let profile = request.get("profile"@);
    seq![
        Some(request),
        profile,
        request.get("options"@),
        request.get("secrets"@),
        match profile {
            Some(p) => p.get("options"@),
            None => None,
        },
        match profile {
            Some(p) => p.get("secrets"@),
            None => None,
        },
    ]
}

/// The trimmed text of a field, where the field is a string that is not blank.
pub open spec fn field_text(container: JsonView, field: Seq<char>) -> Option<Seq<char>> {
    match container.get(field) {
        Some(JsonView::Text(t)) => if trimmed(t).len() > 0 {
            Some(trimmed(t))
        } else {
            None
        },
        _ => None,
    }
}

/// The text of the first of the fields that has one in this container.
pub open spec fn first_field(container: JsonView, fields: Seq<Seq<char>>) -> Option<Seq<char>>
    decreases fields.len(),
{
    if fields.len() == 0 {
        None
    } else {
        match field_text(container, fields[0]) {
            Some(t) => Some(t),
            None => first_field(container, fields.drop_first()),
        }
    }
}

/// The text that the first of the containers has for one of the fields.
pub open spec fn first_container(
    places: Seq<Option<JsonView>>,
    fields: Seq<Seq<char>>,
) -> Option<Seq<char>>
    decreases places.len(),
{
    if places.len() == 0 {
        None
    } else {
        let here = match places[0] {
            Some(container) => first_field(container, fields),
            None => None,
        };
        match here {
            Some(t) => Some(t),
            None => first_container(places.drop_first(), fields),
        }
    }
}

/// The option that a request gives under one of several field names.
pub open spec fn option_text(request: JsonView, fields: Seq<Seq<char>>) -> Option<Seq<char>> {
    first_container(containers(request), fields)
}

/// The field names by their text.
pub open spec fn names(fields: Seq<&str>) -> Seq<Seq<char>> {
    fields.map_values(|f: &str| f@)
}

/// The text of an optional string.
pub open spec fn string_view(s: Option<String>) -> Option<Seq<char>> {
    match s {
        Some(t) => Some(t@),
        None => None,
    }
}

/// The text of an optional string slice.
pub open spec fn str_view(s: Option<&str>) -> Option<Seq<char>> {
    match s {
        Some(t) => Some(t@),
        None => None,
    }
}

/// The trimmed text of a field of one container.
fn field_string(container: &Json, field: &str) -> (r: Option<String>)
    ensures
        string_view(r) == field_text(container@, field@),
{
    match container.get(field) {
        Some(value) => match value.as_str() {
            Some(t) => {
                let bare = trim(t);
                if bare.as_str().is_empty() {
                    None
                } else {
                    Some(bare)
                }
            },
            None => None,
        },
        None => None,
    }
}

/// The trimmed text of the first of the fields that one container has.
fn container_string(container: &Json, fields: &[&str]) -> (r: Option<String>)
    ensures
        string_view(r) == first_field(container@, names(fields@)),
{
    let ghost all = names(fields@);
    let mut i: usize = 0;
    assert(all.skip(0) =~= all);
    while i < fields.len()
        invariant
            i <= fields.len(),
            all == names(fields@),
            first_field(container@, all) == first_field(container@, all.skip(i as int)),
        decreases fields.len() - i,
    {
        let found = field_string(container, fields[i]);
        assert(all.skip(i as int)[0] == fields@[i as int]@);
        assert(all.skip(i as int).drop_first() =~= all.skip(i + 1));
        if found.is_some() {
            return found;
        }
        i += 1;
    }
    None
}

/// Resolves an option from anywhere the host may put it: the first container that has one of
/// the fields as a string that is not blank, and there the first such field, trimmed.
pub fn option_string(request: &Json, fields: &[&str]) -> (r: Option<String>)
    ensures
        string_view(r) == option_text(request@, names(fields@)),
{
    let profile = request.get("profile");
    let profile_options = match profile {
        Some(p) => p.get("options"),
        None => None,
    };
    let profile_secrets = match profile {
        Some(p) => p.get("secrets"),
        None => None,
    };
    let places: Vec<Option<&Json>> = vec![
        Some(request),
        profile,
        request.get("options"),
        request.get("secrets"),
        profile_options,
        profile_secrets,
    ];
    let ghost all = containers(request@);
    let ghost wanted = names(fields@);
    let mut i: usize = 0;
    assert(all.skip(0) =~= all);
    assert(forall|k: int| 0 <= k < places.len() ==> option_view(#[trigger] places@[k]) == all[k]);
    while i < places.len()
        invariant
            i <= places.len(),
            places.len() == all.len(),
            all == containers(request@),
            wanted == names(fields@),
            forall|k: int|
                0 <= k < places.len() ==> option_view(#[trigger] places@[k]) == all[k],
            first_container(all, wanted) == first_container(all.skip(i as int), wanted),
        decreases places.len() - i,
    {
        let place = places[i];
        assert(option_view(places@[i as int]) == all[i as int]);
        assert(all.skip(i as int).drop_first() =~= all.skip(i + 1));
        if let Some(container) = place {
            let found = container_string(container, fields);
            if found.is_some() {
                return found;
            }
        }
        i += 1;
    }
    None
}

/// Whether a text starts with a scheme, in any case.
pub open spec fn has_scheme(raw: Seq<char>, scheme: Seq<char>) -> bool {
    scheme.is_prefix_of(ascii_lower(raw))
}

/// The database that the text after the scheme names: leading slashes are dropped; after an
/// `@`, what follows it counts, without leading `md`s and then without leading slashes.
pub open spec fn database_name(rest: Seq<char>) -> Seq<char> {
    let path = without_leading(rest, '/');
    match after_first(path, '@') {
        Some(after) => without_leading(without_prefixes(after, "md"@), '/'),
        None => path,
    }
}

/// The database part of a MotherDuck target; nothing where the text has no MotherDuck scheme.
pub open spec fn database_of(raw: Seq<char>) -> Option<Seq<char>> {
    if has_scheme(raw, "md:"@) {
        Some(database_name(raw.skip("md:"@.len() as int)))
    } else if has_scheme(raw, "motherduck:"@) {
        Some(database_name(raw.skip("motherduck:"@.len() as int)))
    } else {
        None
    }
}

/// The database part of what follows a scheme.
fn name_after_scheme(raw: &str, scheme: &str) -> (r: String)
    requires
        has_scheme(raw@, scheme@),
    ensures
        r@ == database_name(raw@.skip(scheme@.len() as int)),
{
    let from = scheme.unicode_len();
    let to = raw.unicode_len();
    let rest = raw.substring_char(from, to);
    assert(rest@ =~= raw@.skip(scheme@.len() as int));
    let path = trim_start_char(rest, '/');
    match text_after(&path, '@') {
        Some(after) => {
            let name = trim_start_text(&after, "md");
            trim_start_char(&name, '/')
        },
        None => path,
    }
}

/// The database part of a MotherDuck target, for the spellings `md:`, `md:name`,
/// `motherduck:name` and `motherduck://token@md/name`. The scheme may be in any case; the name
/// is kept as it is typed.
pub fn motherduck_database(raw: &str) -> (r: Option<String>)
    ensures
        string_view(r) == database_of(raw@),
{
    let lowered = to_lower(raw);
    if starts_with(&lowered, "md:") {
        Some(name_after_scheme(raw, "md:"))
    } else if starts_with(&lowered, "motherduck:") {
        Some(name_after_scheme(raw, "motherduck:"))
    } else {
        None
    }
}

/// What a profile asks to open.
#[derive(Debug, PartialEq, Eq)]
pub enum Target {
    /// A database that lives in memory.
    InMemory,
    /// A database in a local file.
    LocalFile(String),
    /// A MotherDuck database by the part after the scheme; empty means the account's default
    /// database.
    MotherDuck(String),
}

impl Clone for Target {
    fn clone(&self) -> (r: Self)
        ensures
            r == *self,
    {
        match self {
            Target::InMemory => Target::InMemory,
            Target::LocalFile(path) => Target::LocalFile(path.clone()),
            Target::MotherDuck(database) => Target::MotherDuck(database.clone()),
        }
    }
}

/// The mathematical content of a [`Target`].
pub ghost enum TargetView {
    InMemory,
    LocalFile(Seq<char>),
    MotherDuck(Seq<char>),
}

impl View for Target {
    type V = TargetView;

    open spec fn view(&self) -> TargetView {
        match self {
            Target::InMemory => TargetView::InMemory,
            Target::LocalFile(path) => TargetView::LocalFile(path@),
            Target::MotherDuck(database) => TargetView::MotherDuck(database@),
        }
    }
}

/// The field names under which a request gives its database.
pub open spec fn database_fields() -> Seq<Seq<char>> {
    seq!["database"@, "url"@, "connectionString"@, "dsn"@]
}

/// The target that a database text means.
pub open spec fn target_of_text(raw: Seq<char>) -> TargetView {
    if raw.len() == 0 || raw == ":memory:"@ {
        TargetView::InMemory
    } else {
        match database_of(raw) {
            Some(database) => TargetView::MotherDuck(database),
            None => TargetView::LocalFile(raw),
        }
    }
}

/// The target that a request asks for; one that names no database asks for memory.
pub open spec fn target_of(request: JsonView) -> TargetView {
    match option_text(request, database_fields()) {
        Some(raw) => target_of_text(raw),
        None => TargetView::InMemory,
    }
}

impl Target {
    /// The target that a request asks for.
    pub fn from_request(request: &Json) -> (r: Target)
        ensures
            r@ == target_of(request@),
    {
        let fields: [&str; 4] = ["database", "url", "connectionString", "dsn"];
        assert(names(fields@) =~= database_fields());
        match option_string(request, fields.as_slice()) {
            Some(raw) => {
                if raw.as_str().is_empty() || same_text(&raw, ":memory:") {
                    Target::InMemory
                } else {
                    match motherduck_database(&raw) {
                        Some(database) => Target::MotherDuck(database),
                        None => Target::LocalFile(raw),
                    }
                }
            },
            None => Target::InMemory,
        }
    }
}

/// The field names under which a request gives its token.
pub open spec fn token_fields() -> Seq<Seq<char>> {
    seq!["motherduckToken"@, "motherduck_token"@, "token"@, "password"@]
}

/// The token of a request: the one it gives, else the one of the environment, trimmed; a blank
/// one is none.
pub open spec fn token_of(request: JsonView, environment: Option<Seq<char>>) -> Option<Seq<char>> {
    match option_text(request, token_fields()) {
        Some(token) => Some(token),
        None => match environment {
            Some(token) => if trimmed(token).len() > 0 {
                Some(trimmed(token))
            } else {
                None
            },
            None => None,
        },
    }
}

/// The MotherDuck service token, or `None` when there is none. A token of the profile comes
/// first; `environment`, the value of the environment variable `motherduck_token`, is the last
/// resort.
pub fn motherduck_token(request: &Json, environment: Option<&str>) -> (r: Option<String>)
    ensures
        string_view(r) == token_of(request@, str_view(environment)),
{
    let fields: [&str; 4] = ["motherduckToken", "motherduck_token", "token", "password"];
    assert(names(fields@) =~= token_fields());
    let given = option_string(request, fields.as_slice());
    if given.is_some() {
        return given;
    }
    match environment {
        Some(token) => {
            let bare = trim(token);
            if bare.as_str().is_empty() {
                None
            } else {
                Some(bare)
            }
        },
        None => None,
    }
}

/// Whether the sample is to be seeded: as the request, or else its profile, says in
/// `seedSample`; where neither has that field, or the one that counts is no boolean, for the two
/// connections that live in memory.
pub open spec fn seeds_sample(request: JsonView, connection_id: Seq<char>) -> bool {
    let flag = match request.get("seedSample"@) {
        Some(value) => Some(value),
        None => match request.get("profile"@) {
            Some(profile) => profile.get("seedSample"@),
            None => None,
        },
    };
    match flag {
        Some(JsonView::Bool(b)) => b,
        _ => connection_id == "duckdb-memory"@ || connection_id == "motherduck-memory"@,
    }
}

/// Whether the sample is to be seeded into a new connection.
pub fn should_seed_sample(request: &Json, connection_id: &str) -> (r: bool)
    ensures
        r == seeds_sample(request@, connection_id@),
{
    let flag = match request.get("seedSample") {
        Some(value) => Some(value),
        None => match request.get("profile") {
            Some(profile) => profile.get("seedSample"),
            None => None,
        },
    };
    let given = match flag {
        Some(value) => value.as_bool(),
        None => None,
    };
    match given {
        Some(b) => b,
        None => same_text(connection_id, "duckdb-memory") || same_text(
            connection_id,
            "motherduck-memory",
        ),
    }
}

/// The text that the container at place `i` has for the field at place `j`.
pub open spec fn entry(
    places: Seq<Option<JsonView>>,
    fields: Seq<Seq<char>>,
    i: int,
    j: int,
) -> Option<Seq<char>> {
    match places[i] {
        Some(container) => field_text(container, fields[j]),
        None => None,
    }
}

proof fn lemma_first_field(container: JsonView, fields: Seq<Seq<char>>)
    ensures
        match first_field(container, fields) {
            Some(t) => exists|j: int|
                {
                    &&& 0 <= j < fields.len()
                    &&& #[trigger] field_text(container, fields[j]) == Some(t)
                    &&& forall|k: int|
                        0 <= k < j ==> (#[trigger] field_text(container, fields[k])) is None
                },
            None => forall|j: int|
                0 <= j < fields.len() ==> (#[trigger] field_text(container, fields[j])) is None,
        },
    decreases fields.len(),
{
    if fields.len() > 0 {
        let tail = fields.drop_first();
        lemma_first_field(container, tail);
        assert(forall|k: int| 0 <= k < tail.len() ==> tail[k] == fields[k + 1]);
        if field_text(container, fields[0]) is Some {
            assert(field_text(container, fields[0]) == first_field(container, fields));
        } else if first_field(container, fields) is Some {
            let t = first_field(container, fields)->0;
            let j = choose|j: int|
                {
                    &&& 0 <= j < tail.len()
                    &&& #[trigger] field_text(container, tail[j]) == Some(t)
                    &&& forall|k: int|
                        0 <= k < j ==> (#[trigger] field_text(container, tail[k])) is None
                };
            assert(field_text(container, fields[j + 1]) == Some(t));
            assert forall|k: int| 0 <= k < j + 1 implies (#[trigger] field_text(
                container,
                fields[k],
            )) is None by {
                if k > 0 {
                    assert(field_text(container, tail[k - 1]) is None);
                }
            }
        } else {
            assert forall|k: int| 0 <= k < fields.len() implies (#[trigger] field_text(
                container,
                fields[k],
            )) is None by {
                if k > 0 {
                    assert(field_text(container, tail[k - 1]) is None);
                }
            }
        }
    }
}

/// An entry that counts: it has the text, no earlier container has any of the fields, and its
/// own container has none of the earlier fields.
pub open spec fn is_first_entry(
    places: Seq<Option<JsonView>>,
    fields: Seq<Seq<char>>,
    i: int,
    j: int,
    t: Seq<char>,
) -> bool {
    &&& 0 <= i < places.len()
    &&& 0 <= j < fields.len()
    &&& entry(places, fields, i, j) == Some(t)
    &&& forall|k: int| 0 <= k < j ==> (#[trigger] entry(places, fields, i, k)) is None
    &&& forall|h: int, k: int|
        0 <= h < i && 0 <= k < fields.len() ==> (#[trigger] entry(places, fields, h, k)) is None
}

proof fn lemma_first_container(places: Seq<Option<JsonView>>, fields: Seq<Seq<char>>)
    ensures
        match first_container(places, fields) {
            Some(t) => exists|i: int, j: int| is_first_entry(places, fields, i, j, t),
            None => forall|i: int, j: int|
                0 <= i < places.len() && 0 <= j < fields.len() ==> (#[trigger] entry(
                    places,
                    fields,
                    i,
                    j,
                )) is None,
        },
    decreases places.len(),
{
    if places.len() > 0 {
        let tail = places.drop_first();
        lemma_first_container(tail, fields);
        assert(forall|h: int, k: int|
            0 <= h < tail.len() ==> #[trigger] entry(tail, fields, h, k) == entry(
                places,
                fields,
                h + 1,
                k,
            ));
        if let Some(container) = places[0] {
            lemma_first_field(container, fields);
            assert(forall|k: int|
                #[trigger] entry(places, fields, 0, k) == field_text(container, fields[k]));
        }
        let here = match places[0] {
            Some(container) => first_field(container, fields),
            None => None,
        };
        if let Some(t) = here {
            let container = places[0]->0;
            let j = choose|j: int|
                {
                    &&& 0 <= j < fields.len()
                    &&& #[trigger] field_text(container, fields[j]) == Some(t)
                    &&& forall|k: int|
                        0 <= k < j ==> (#[trigger] field_text(container, fields[k])) is None
                };
            assert(is_first_entry(places, fields, 0, j, t));
        } else {
            assert(forall|k: int|
                0 <= k < fields.len() ==> (#[trigger] entry(places, fields, 0, k)) is None);
            match first_container(tail, fields) {
                Some(t) => {
                    let (i, j) = choose|i: int, j: int| is_first_entry(tail, fields, i, j, t);
                    assert(entry(tail, fields, i, j) == Some(t));
                    assert forall|k: int| 0 <= k < j implies (#[trigger] entry(
                        places,
                        fields,
                        i + 1,
                        k,
                    )) is None by {
                        assert(entry(tail, fields, i, k) is None);
                    }
                    assert forall|h: int, k: int|
                        0 <= h < i + 1 && 0 <= k < fields.len() implies (#[trigger] entry(
                        places,
                        fields,
                        h,
                        k,
                    )) is None by {
                        if h > 0 {
                            assert(entry(tail, fields, h - 1, k) is None);
                        }
                    }
                    assert(is_first_entry(places, fields, i + 1, j, t));
                },
                None => {
                    assert forall|h: int, k: int|
                        0 <= h < places.len() && 0 <= k < fields.len() implies (#[trigger] entry(
                        places,
                        fields,
                        h,
                        k,
                    )) is None by {
                        if h > 0 {
                            assert(entry(tail, fields, h - 1, k) is None);
                        }
                    }
                },
            }
        }
    }
}

/// An option is found wherever it stands. The lookup fails only if no container has any of the
/// fields as a string that is not blank; else it gives the field of the earliest container, and
/// of the earliest name in that container. What it gives is not blank and has no white space at
/// its ends.
pub proof fn option_is_found_anywhere(request: JsonView, fields: Seq<Seq<char>>)
    ensures
        match option_text(request, fields) {
            Some(t) => {
                &&& exists|i: int, j: int| is_first_entry(containers(request), fields, i, j, t)
                &&& t.len() > 0
                &&& !is_white_space_spec(t[0])
                &&& !is_white_space_spec(t.last())
            },
            None => forall|i: int, j: int|
                0 <= i < 6 && 0 <= j < fields.len() ==> (#[trigger] entry(
                    containers(request),
                    fields,
                    i,
                    j,
                )) is None,
        },
{
    let places = containers(request);
    lemma_first_container(places, fields);
    if let Some(t) = option_text(request, fields) {
        let (i, j) = choose|i: int, j: int| is_first_entry(places, fields, i, j, t);
        let raw = places[i]->0.get(fields[j])->0->Text_0;
        assert(t == trimmed(raw));
        lemma_trimmed_is_bare(raw);
    }
}

/// A token of the profile wins over the environment, and a token is never blank.
pub proof fn token_is_never_blank(request: JsonView, environment: Option<Seq<char>>)
    ensures
        option_text(request, token_fields()) is Some ==> token_of(request, environment)
            == option_text(request, token_fields()),
        token_of(request, environment) matches Some(t) ==> {
            &&& t.len() > 0
            &&& !is_white_space_spec(t[0])
            &&& !is_white_space_spec(t.last())
        },
        option_text(request, token_fields()) is None && (environment is None || trimmed(
            environment->0,
        ).len() == 0) ==> token_of(request, environment) is None,
{
    option_is_found_anywhere(request, token_fields());
    if let Some(t) = environment {
        lemma_trimmed_is_bare(t);
    }
}

/// The scheme is recognised in any case, and what follows it is read as it is typed.
pub proof fn scheme_ignores_case(scheme: Seq<char>, rest: Seq<char>)
    requires
        ascii_lower(scheme) == "md:"@ || ascii_lower(scheme) == "motherduck:"@,
    ensures
        database_of(scheme + rest) == Some(database_name(rest)),
{
    reveal_strlit("md:");
    reveal_strlit("motherduck:");
    let raw = scheme + rest;
    assert(ascii_lower(scheme).len() == scheme.len());
    assert(raw.skip(scheme.len() as int) =~= rest);
    assert(ascii_lower(raw).subrange(0, scheme.len() as int) =~= ascii_lower(scheme));
    if ascii_lower(scheme) == "motherduck:"@ {
        assert(ascii_lower(raw)[1] == ascii_lower(raw).subrange(0, scheme.len() as int)[1]);
        assert(ascii_lower(raw)[1] == 'o');
        assert("md:"@.is_prefix_of(ascii_lower(raw)) ==> ascii_lower(raw)[1] == "md:"@[1]);
    }
}

proof fn lemma_without_leading_is_suffix(s: Seq<char>, c: char)
    ensures
        without_leading(s, c).is_suffix_of(s),
        without_leading(s, c).len() > 0 ==> without_leading(s, c)[0] != c,
    decreases s.len(),
{
    if s.len() > 0 && s[0] == c {
        lemma_without_leading_is_suffix(s.drop_first(), c);
        lemma_suffix_transitive(without_leading(s, c), s.drop_first(), s);
    } else {
        assert(s =~= s.subrange(0, s.len() as int));
    }
}

proof fn lemma_without_prefixes_is_suffix(s: Seq<char>, prefix: Seq<char>)
    ensures
        without_prefixes(s, prefix).is_suffix_of(s),
    decreases s.len(),
{
    if prefix.len() > 0 && prefix.is_prefix_of(s) {
        let tail = s.skip(prefix.len() as int);
        lemma_without_prefixes_is_suffix(tail, prefix);
        assert(tail.is_suffix_of(s)) by {
            assert(tail =~= s.subrange(s.len() - tail.len(), s.len() as int));
        }
        lemma_suffix_transitive(without_prefixes(s, prefix), tail, s);
    } else {
        assert(s =~= s.subrange(0, s.len() as int));
    }
}

proof fn lemma_after_first_is_suffix(s: Seq<char>, c: char)
    ensures
        after_first(s, c) matches Some(t) ==> t.is_suffix_of(s),
    decreases s.len(),
{
    if s.len() > 0 {
        assert(s.drop_first() =~= s.subrange(1, s.len() as int));
        assert(s.drop_first().is_suffix_of(s));
        if s[0] != c {
            lemma_after_first_is_suffix(s.drop_first(), c);
            if let Some(t) = after_first(s, c) {
                lemma_suffix_transitive(t, s.drop_first(), s);
            }
        }
    }
}

proof fn lemma_suffix_transitive(a: Seq<char>, b: Seq<char>, c: Seq<char>)
    requires
        a.is_suffix_of(b),
        b =~= c.subrange(c.len() - b.len(), c.len() as int),
        b.len() <= c.len(),
    ensures
        a.is_suffix_of(c),
{
    assert(a =~= c.subrange(c.len() - a.len(), c.len() as int));
}

/// The name of a database is never altered: it is the end of what was typed, character for
/// character; and where that has neither a leading slash nor an `@`, it is all of it.
pub proof fn name_is_kept(rest: Seq<char>)
    ensures
        database_name(rest).is_suffix_of(rest),
        !rest.contains('@') && (rest.len() == 0 || rest[0] != '/') ==> database_name(rest) == rest,
{
    let path = without_leading(rest, '/');
    lemma_without_leading_is_suffix(rest, '/');
    lemma_after_first_is_suffix(path, '@');
    if let Some(after) = after_first(path, '@') {
        lemma_after_first_occurs(path, '@');
        let bare = without_prefixes(after, "md"@);
        lemma_without_prefixes_is_suffix(after, "md"@);
        lemma_without_leading_is_suffix(bare, '/');
        lemma_suffix_transitive(without_leading(bare, '/'), bare, after);
        lemma_suffix_transitive(database_name(rest), after, path);
        lemma_suffix_transitive(database_name(rest), path, rest);
        assert(path.contains('@'));
        let k = choose|k: int| 0 <= k < path.len() && path[k] == '@';
        assert(rest[rest.len() - path.len() + k] == '@');
    }
}

proof fn lemma_after_first_occurs(s: Seq<char>, c: char)
    ensures
        after_first(s, c) is Some <==> s.contains(c),
    decreases s.len(),
{
    if s.len() > 0 {
        lemma_after_first_occurs(s.drop_first(), c);
        if s[0] == c {
            assert(s.contains(c));
        } else if s.contains(c) {
            let k = choose|k: int| 0 <= k < s.len() && s[k] == c;
            assert(s.drop_first()[k - 1] == c);
        } else if s.drop_first().contains(c) {
            let k = choose|k: int| 0 <= k < s.drop_first().len() && s.drop_first()[k] == c;
            assert(s[k + 1] == c);
        }
    }
}

proof fn lemma_without_leading_of_sum(s: Seq<char>, t: Seq<char>, c: char)
    requires
        t.len() > 0,
        t[0] != c,
    ensures
        without_leading(s + t, c) == without_leading(s, c) + t,
    decreases s.len(),
{
    if s.len() == 0 {
        assert(s + t =~= t);
    } else if s[0] == c {
        lemma_without_leading_of_sum(s.drop_first(), t, c);
        assert((s + t).drop_first() =~= s.drop_first() + t);
    }
}

proof fn lemma_after_first_of_sum(s: Seq<char>, c: char, t: Seq<char>)
    requires
        !s.contains(c),
    ensures
        after_first(s + seq![c] + t, c) == Some(t),
    decreases s.len(),
{
    let all = s + seq![c] + t;
    if s.len() == 0 {
        assert(all.drop_first() =~= t);
    } else {
        assert(s.contains(s[0]));
        assert(!s.drop_first().contains(c)) by {
            if s.drop_first().contains(c) {
                let k = choose|k: int| 0 <= k < s.drop_first().len() && s.drop_first()[k] == c;
                assert(s[k + 1] == c);
            }
        }
        lemma_after_first_of_sum(s.drop_first(), c, t);
        assert(all.drop_first() =~= s.drop_first() + seq![c] + t);
    }
}

/// The form that carries a token, `motherduck://token@md/name`, names the database after its
/// last part, whatever the token is.
pub proof fn url_form_names_the_database(token: Seq<char>, name: Seq<char>)
    requires
        !token.contains('@'),
        name.len() == 0 || name[0] != '/',
    ensures
        database_of("motherduck://"@ + token + "@md/"@ + name) == Some(name),
{
    reveal_strlit("motherduck://");
    reveal_strlit("motherduck:");
    reveal_strlit("@md/");
    reveal_strlit("md");
    let raw = "motherduck://"@ + token + "@md/"@ + name;
    let rest = seq!['/', '/'] + token + "@md/"@ + name;
    let tail = "@md/"@ + name;
    assert(raw =~= "motherduck:"@ + rest);
    assert(ascii_lower("motherduck:"@) =~= "motherduck:"@);
    scheme_ignores_case("motherduck:"@, rest);

    let bare = without_leading(token, '/');
    lemma_without_leading_of_sum(token, tail, '/');
    assert(rest.drop_first().drop_first() =~= token + tail);
    assert(rest.drop_first()[0] == '/');
    assert(without_leading(rest, '/') == without_leading(rest.drop_first(), '/'));
    assert(without_leading(rest.drop_first(), '/') == without_leading(token + tail, '/'));
    let path = without_leading(rest, '/');
    assert(path == bare + tail);

    lemma_without_leading_is_suffix(token, '/');
    assert(!bare.contains('@')) by {
        if bare.contains('@') {
            let k = choose|k: int| 0 <= k < bare.len() && bare[k] == '@';
            assert(token[token.len() - bare.len() + k] == '@');
        }
    }
    let after = seq!['m', 'd', '/'] + name;
    assert(path =~= bare + seq!['@'] + after);
    lemma_after_first_of_sum(bare, '@', after);

    assert("md"@ =~= after.subrange(0, 2));
    let slashed = seq!['/'] + name;
    assert(after.skip(2) =~= slashed);
    assert(!"md"@.is_prefix_of(slashed)) by {
        if "md"@.is_prefix_of(slashed) {
            assert(slashed.subrange(0, 2)[0] == 'm');
        }
    }
    assert(without_prefixes(after, "md"@) == without_prefixes(slashed, "md"@));
    assert(slashed.drop_first() =~= name);
    assert(without_leading(slashed, '/') == without_leading(name, '/'));
}

/// A MotherDuck target is never opened as a file: a request that gives a text with a MotherDuck
/// scheme asks for that MotherDuck database, and a path that is opened as a file has no such
/// scheme, is not blank, and has no white space at its ends.
pub proof fn motherduck_is_never_a_file(request: JsonView)
    ensures
        option_text(request, database_fields()) matches Some(raw) ==> (database_of(raw) is Some
            ==> target_of(request) == TargetView::MotherDuck(database_of(raw)->0)),
        target_of(request) matches TargetView::LocalFile(path) ==> {
            &&& option_text(request, database_fields()) == Some(path)
            &&& database_of(path) is None
            &&& path.len() > 0
            &&& path != ":memory:"@
            &&& !is_white_space_spec(path[0])
            &&& !is_white_space_spec(path.last())
        },
{
    reveal_strlit(":memory:");
    reveal_strlit("md:");
    reveal_strlit("motherduck:");
    option_is_found_anywhere(request, database_fields());
    if let Some(raw) = option_text(request, database_fields()) {
        if raw == ":memory:"@ {
            let lowered = ascii_lower(raw);
            assert(lowered[0] == ':');
            if "md:"@.is_prefix_of(lowered) {
                assert(lowered.subrange(0, 3)[0] == 'm');
            }
            if "motherduck:"@.is_prefix_of(lowered) {
                assert(lowered.subrange(0, 11)[0] == 'm');
            }
        }
    }
}

} // verus!
