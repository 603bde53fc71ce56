//! What a request asks for, said of its members and of the characters that were typed.

use vstd::prelude::*;

use crate::json::JsonView;
use crate::target::{
    containers, database_fields, database_name, database_of, entry, has_scheme, is_first_entry,
    option_is_found_anywhere, option_text, scheme_ignores_case, seeds_sample, target_of,
    token_fields, token_of, TargetView,
};
use crate::text::{after_first, ascii_lower, trimmed, without_leading, without_prefixes};
use crate::text_laws::{
    only_leading_characters_are_dropped, only_leading_prefixes_are_dropped,
    split_is_at_the_first_occurrence,
};

verus! {

/// Whether a place of a request has the field as a string which without its outer white space is
/// the given text, and not blank.
pub open spec fn holds_text(place: Option<JsonView>, field: Seq<char>, text: Seq<char>) -> bool {
    &&& place is Some
    &&& place->0.get(field) is Some
    &&& place->0.get(field)->0.as_text() is Some
    &&& trimmed(place->0.get(field)->0.as_text()->0) == text
    &&& text.len() > 0
}

/// An option is the text of the first field in the first place that has one: the places are the
/// request, its profile, its options, its secrets, and the options and then the secrets of its
/// profile. There is none exactly if no place has any of the fields.
pub proof fn an_option_comes_from_the_first_place(
    request: JsonView,
    fields: Seq<Seq<char>>,
    places: Seq<Option<JsonView>>,
)
    requires
        places.len() == 6,
        places[0] == Some(request),
        places[1] == request.get("profile"@),
        places[2] == request.get("options"@),
        places[3] == request.get("secrets"@),
        places[4] == (if request.get("profile"@) is Some {
            request.get("profile"@)->0.get("options"@)
        } else {
            None
        }),
        places[5] == (if request.get("profile"@) is Some {
            request.get("profile"@)->0.get("secrets"@)
        } else {
            None
        }),
    ensures
        match option_text(request, fields) {
            Some(text) => exists|i: int, j: int|
                {
                    &&& 0 <= i < 6
                    &&& 0 <= j < fields.len()
                    &&& #[trigger] holds_text(places[i], fields[j], text)
                    &&& forall|k: int, t: Seq<char>|
                        0 <= k < j ==> !#[trigger] holds_text(places[i], fields[k], t)
                    &&& forall|h: int, k: int, t: Seq<char>|
                        0 <= h < i && 0 <= k < fields.len() ==> !#[trigger] holds_text(
                            places[h],
                            fields[k],
                            t,
                        )
                },
            None => forall|h: int, k: int, t: Seq<char>|
                0 <= h < 6 && 0 <= k < fields.len() ==> !#[trigger] holds_text(
                    places[h],
                    fields[k],
                    t,
                ),
        },
{
    option_is_found_anywhere(request, fields);
    assert(places =~= containers(request));
    assert forall|h: int, k: int, t: Seq<char>|
        0 <= h < 6 && 0 <= k < fields.len() implies #[trigger] holds_text(places[h], fields[k], t)
        == (entry(places, fields, h, k) == Some(t)) by {}
    if let Some(text) = option_text(request, fields) {
        let (i, j) = choose|i: int, j: int| is_first_entry(places, fields, i, j, text);
        assert(entry(places, fields, i, j) == Some(text));
        assert(holds_text(places[i], fields[j], text));
    }
}

/// Whether a text starts with one of the two MotherDuck schemes, in any case.
pub open spec fn is_motherduck_text(raw: Seq<char>) -> bool {
    ||| raw.len() >= 3 && ascii_lower(raw.take(3)) == seq!['m', 'd', ':']
    ||| raw.len() >= 11 && ascii_lower(raw.take(11)) == seq![
        'm', 'o', 't', 'h', 'e', 'r', 'd', 'u', 'c', 'k', ':',
    ]
}

/// Only a text with a MotherDuck scheme names a MotherDuck database, and every such text does.
pub proof fn only_the_schemes_mean_motherduck(raw: Seq<char>)
    ensures
        database_of(raw) is Some <==> is_motherduck_text(raw),
{
    reveal_strlit("md:");
    reveal_strlit("motherduck:");
    let lowered = ascii_lower(raw);
    assert("md:"@ =~= seq!['m', 'd', ':']);
    assert("motherduck:"@ =~= seq!['m', 'o', 't', 'h', 'e', 'r', 'd', 'u', 'c', 'k', ':']);
    if raw.len() >= 3 {
        assert(lowered.subrange(0, 3) =~= ascii_lower(raw.take(3)));
    }
    if raw.len() >= 11 {
        assert(lowered.subrange(0, 11) =~= ascii_lower(raw.take(11)));
    }
    assert(has_scheme(raw, "md:"@) <==> raw.len() >= 3 && ascii_lower(raw.take(3)) == "md:"@);
    assert(has_scheme(raw, "motherduck:"@) <==> raw.len() >= 11 && ascii_lower(raw.take(11))
        == "motherduck:"@);
}

/// A database without an `@` is named by all that follows the scheme and the slashes after it.
pub proof fn a_plain_name_is_all_that_follows(
    scheme: Seq<char>,
    slashes: Seq<char>,
    name: Seq<char>,
)
    requires
        ascii_lower(scheme) == "md:"@ || ascii_lower(scheme) == "motherduck:"@,
        forall|i: int| 0 <= i < slashes.len() ==> #[trigger] slashes[i] == '/',
        name.len() > 0 ==> name[0] != '/',
        !name.contains('@'),
    ensures
        database_of(scheme + slashes + name) == Some(name),
{
    assert(scheme + slashes + name =~= scheme + (slashes + name));
    scheme_ignores_case(scheme, slashes + name);
    only_leading_characters_are_dropped(slashes, name, '/');
    split_is_at_the_first_occurrence(name, '@', seq![]);
}

/// A database with an `@` is named by what follows the first one, after any number of `md` and then
/// of slashes.
pub proof fn a_name_after_an_at_sign_follows_md_and_slashes(
    scheme: Seq<char>,
    slashes: Seq<char>,
    user: Seq<char>,
    copies: Seq<char>,
    more: Seq<char>,
    name: Seq<char>,
)
    requires
        ascii_lower(scheme) == "md:"@ || ascii_lower(scheme) == "motherduck:"@,
        forall|i: int| 0 <= i < slashes.len() ==> #[trigger] slashes[i] == '/',
        user.len() > 0 ==> user[0] != '/',
        !user.contains('@'),
        copies.len() % 2 == 0,
        forall|i: int|
            0 <= i < copies.len() ==> #[trigger] copies[i] == if i % 2 == 0 {
                'm'
            } else {
                'd'
            },
        forall|i: int| 0 <= i < more.len() ==> #[trigger] more[i] == '/',
        name.len() > 0 ==> name[0] != '/',
        more.len() == 0 ==> !(name.len() >= 2 && name[0] == 'm' && name[1] == 'd'),
    ensures
        database_of(scheme + slashes + user + seq!['@'] + copies + more + name) == Some(name),
{
    let after = copies + more + name;
    let path = user + seq!['@'] + after;
    assert(scheme + slashes + user + seq!['@'] + copies + more + name =~= scheme + (slashes
        + path));
    scheme_ignores_case(scheme, slashes + path);
    assert(path[0] != '/');
    only_leading_characters_are_dropped(slashes, path, '/');
    split_is_at_the_first_occurrence(user, '@', after);
    let mid = more + name;
    assert(after =~= copies + mid);
    reveal_strlit("md");
    assert("md"@ =~= seq!['m', 'd']);
    assert(!"md"@.is_prefix_of(mid)) by {
        if "md"@.is_prefix_of(mid) {
            assert(mid.subrange(0, 2)[0] == 'm' && mid.subrange(0, 2)[1] == 'd');
            if more.len() > 0 {
                assert(mid[0] == more[0]);
            } else {
                assert(mid =~= name);
            }
        }
    }
    lemma_copies_are_dropped(copies, mid);
    only_leading_characters_are_dropped(more, name, '/');
    assert(database_name(slashes + path) == without_leading(
        without_prefixes(after_first(path, '@')->0, "md"@),
        '/',
    ));
}

proof fn lemma_copies_are_dropped(copies: Seq<char>, rest: Seq<char>)
    requires
        copies.len() % 2 == 0,
        forall|i: int|
            0 <= i < copies.len() ==> #[trigger] copies[i] == if i % 2 == 0 {
                'm'
            } else {
                'd'
            },
        !"md"@.is_prefix_of(rest),
    ensures
        without_prefixes(copies + rest, "md"@) == rest,
    decreases copies.len(),
{
    if copies.len() == 0 {
        assert(copies + rest =~= rest);
    } else {
        let tail = copies.skip(2);
        assert forall|i: int| 0 <= i < tail.len() implies #[trigger] tail[i] == if i % 2 == 0 {
            'm'
        } else {
            'd'
        } by {
            assert(tail[i] == copies[i + 2]);
            assert((i + 2) % 2 == i % 2);
        }
        lemma_copies_are_dropped(tail, rest);
        reveal_strlit("md");
        assert(copies[0] == 'm' && copies[1] == 'd');
        assert(copies + rest =~= "md"@ + (tail + rest));
        only_leading_prefixes_are_dropped("md"@, tail + rest);
    }
}

/// A request opens what it names. It asks for memory only if it names no database or names
/// `:memory:`; a text with a MotherDuck scheme asks for MotherDuck; and every other text is the
/// path of a local file, exactly as it is given.
pub proof fn what_is_named_is_opened(request: JsonView)
    ensures
        ({
            let given = option_text(
                request,
                seq!["database"@, "url"@, "connectionString"@, "dsn"@],
            );
            match given {
                None => target_of(request) == TargetView::InMemory,
                Some(raw) => {
                    &&& raw.len() > 0
                    &&& if raw == ":memory:"@ {
                        target_of(request) == TargetView::InMemory
                    } else if is_motherduck_text(raw) {
                        database_of(raw) is Some && target_of(request) == TargetView::MotherDuck(
                            database_of(raw)->0,
                        )
                    } else {
                        target_of(request) == TargetView::LocalFile(raw)
                    }
                },
            }
        }),
{
    let fields = seq!["database"@, "url"@, "connectionString"@, "dsn"@];
    assert(fields =~= database_fields());
    option_is_found_anywhere(request, fields);
    if let Some(raw) = option_text(request, fields) {
        only_the_schemes_mean_motherduck(raw);
    }
}

/// The token is the one that the request gives under one of its four names, in this order; else
/// that of the environment without its outer white space, unless it is blank; else there is none.
pub proof fn a_token_is_of_the_request_or_of_the_environment(
    request: JsonView,
    environment: Option<Seq<char>>,
)
    ensures
        ({
            let given = option_text(
                request,
                seq!["motherduckToken"@, "motherduck_token"@, "token"@, "password"@],
            );
            &&& given is Some ==> token_of(request, environment) == given
            &&& given is None && environment is None ==> token_of(request, environment) is None
            &&& given is None && environment is Some ==> if trimmed(environment->0).len() > 0 {
                token_of(request, environment) == Some(trimmed(environment->0))
            } else {
                token_of(request, environment) is None
            }
        }),
{
    assert(seq!["motherduckToken"@, "motherduck_token"@, "token"@, "password"@]
        =~= token_fields());
}

/// The sample is seeded if the request says so, and left out if it denies it; where it does not
/// have the field its profile says so. Where that says neither, it is seeded into the two
/// connections in memory alone.
pub proof fn the_sample_is_seeded_as_asked(request: JsonView, connection_id: Seq<char>)
    ensures
        ({
            let own = request.get("seedSample"@);
            let profile = request.get("profile"@);
            let of_profile = if profile is Some {
                profile->0.get("seedSample"@)
            } else {
                None
            };
            let in_memory = connection_id == "duckdb-memory"@ || connection_id
                == "motherduck-memory"@;
            let seeds = seeds_sample(request, connection_id);
            &&& forall|b: bool| own == Some(JsonView::Bool(b)) ==> seeds == b
            &&& own is Some && own->0.as_bool() is None ==> seeds == in_memory
            &&& forall|b: bool|
                own is None && of_profile == Some(JsonView::Bool(b)) ==> seeds == b
            &&& own is None && of_profile is Some && of_profile->0.as_bool() is None ==> seeds
                == in_memory
            &&& own is None && of_profile is None ==> seeds == in_memory
        }),
{
}

} // verus!
