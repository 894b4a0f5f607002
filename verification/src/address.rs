//! The addresses of organizational units: how they are put together, and what
//! holds of them however a customer or an organizational unit is named.

use vstd::prelude::*;
use vstd::string::*;

use crate::encoding::{
    encode_path, encoded_component, is_component_char, lemma_encoded_component_chars,
    lemma_encoded_component_injective,
};
use crate::types::DirectoryOrgunitsListType;

verus! {

/// The address of the organizational units of one customer.
pub open spec fn collection_url(customer_id: Seq<char>) -> Seq<char> {
    "/admin/directory/v1/customer/"@ + encoded_component(customer_id) + "/orgunits"@
}

/// The address of one organizational unit of a customer.
pub open spec fn unit_url(customer_id: Seq<char>, org_unit_path: Seq<char>) -> Seq<char> {
    collection_url(customer_id) + "/"@ + encoded_component(org_unit_path)
}

/// The query parameters of a listing, each in the form `name=value`: the scope
/// always, and the organizational unit to list below only if one is given.
pub open spec fn list_query_args(
    org_unit_path: Seq<char>,
    type_: DirectoryOrgunitsListType,
) -> Seq<Seq<char>> {
    if org_unit_path.len() == 0 {
        seq!["type="@ + type_.wire_name()]
    } else {
        seq![
            "type="@ + type_.wire_name(),
            "orgUnitPath="@ + encoded_component(org_unit_path),
        ]
    }
}

/// Query parameters put together, with `&` between one and the next.
pub open spec fn joined(args: Seq<Seq<char>>) -> Seq<char>
    decreases args.len(),
{
    if args.len() == 0 {
        Seq::empty()
    } else if args.len() == 1 {
        args[0]
    } else {
        joined(args.drop_last()) + seq!['&'] + args.last()
    }
}

/// The address that a listing is read from.
pub open spec fn list_url(
    customer_id: Seq<char>,
    org_unit_path: Seq<char>,
    type_: DirectoryOrgunitsListType,
) -> Seq<char> {
    collection_url(customer_id) + "?"@ + joined(list_query_args(org_unit_path, type_))
}

/// How often a character occurs in a text. A path that starts with `/` has
/// as many segments as it has occurrences of `/`.
pub open spec fn occurrences(text: Seq<char>, c: char) -> nat
    decreases text.len(),
{
    if text.len() == 0 {
        0
    } else if text.last() == c {
        occurrences(text.drop_last(), c) + 1
    } else {
        occurrences(text.drop_last(), c)
    }
}

/// The texts that a sequence of strings holds.
pub(crate) open spec fn texts(args: Seq<String>) -> Seq<Seq<char>> {
    args.map_values(|s: String| s@)
}

/// Puts query parameters together, with `&` between one and the next.
pub(crate) fn join_args(args: &Vec<String>) -> (out: String)
    ensures
        out@ == joined(texts(args@)),
{
    let mut out = String::new();
    let mut i: usize = 0;
    while i < args.len()
        invariant
            i <= args.len(),
            out@ == joined(texts(args@).take(i as int)),
        decreases args.len() - i,
    {
        let ghost before = out@;
        if i > 0 {
            out.push('&');
        }
        out.append(args[i].as_str());
        proof {
            let t = texts(args@);
            assert(t.take(i + 1).drop_last() == t.take(i as int));
            assert(t.take(i + 1).last() == args@[i as int]@);
            if i > 0 {
                assert(out@ == before + seq!['&'] + args@[i as int]@);
            } else {
                assert(out@ == args@[i as int]@);
            }
        }
        i = i + 1;
    }
    proof {
        assert(texts(args@).take(i as int) == texts(args@));
    }
    out
}

/// Builds the address of the organizational units of one customer.
pub(crate) fn collection_address(customer_id: &str) -> (url: String)
    ensures
        url@ == collection_url(customer_id@),
{
    let mut url = String::from_str("/admin/directory/v1/customer/");
    url.append(encode_path(customer_id).as_str());
    url.append("/orgunits");
    url
}

/// Builds the address of one organizational unit of a customer.
pub(crate) fn unit_address(customer_id: &str, org_unit_path: &str) -> (url: String)
    ensures
        url@ == unit_url(customer_id@, org_unit_path@),
{
    let mut url = collection_address(customer_id);
    url.append("/");
    url.append(encode_path(org_unit_path).as_str());
    url
}

/// A character occurs in two texts put together as often as in the one and
/// in the other.
pub proof fn lemma_occurrences_concat(a: Seq<char>, b: Seq<char>, c: char)
    ensures
        occurrences(a + b, c) == occurrences(a, c) + occurrences(b, c),
    decreases b.len(),
{
    if b.len() == 0 {
        assert(a + b == a);
    } else {
        lemma_occurrences_concat(a, b.drop_last(), c);
        assert((a + b).drop_last() == a + b.drop_last());
        assert((a + b).last() == b.last());
    }
}

/// However a customer and an organizational unit are named, the address of
/// the customer's organizational units has six segments and the address of
/// the organizational unit seven. Besides the `/` before each segment, both
/// hold ASCII letters and digits, `-`, `.`, `_`, `~` and `%` only: no `?`, no
/// `#`, no space.
pub proof fn lemma_url_segments(customer_id: Seq<char>, org_unit_path: Seq<char>)
    ensures
        occurrences(collection_url(customer_id), '/') == 6,
        occurrences(unit_url(customer_id, org_unit_path), '/') == 7,
        forall|c: char|
            !is_component_char(c) && c != '/' ==> #[trigger] occurrences(
                collection_url(customer_id),
                c,
            ) == 0,
        forall|c: char|
            !is_component_char(c) && c != '/' ==> #[trigger] occurrences(
                unit_url(customer_id, org_unit_path),
                c,
            ) == 0,
{
    lemma_collection_url_occurrences(customer_id, '/');
    lemma_unit_url_occurrences(customer_id, org_unit_path, '/');
    assert forall|c: char| !is_component_char(c) && c != '/' implies #[trigger] occurrences(
        collection_url(customer_id),
        c,
    ) == 0 by {
        lemma_collection_url_occurrences(customer_id, c);
    }
    assert forall|c: char| !is_component_char(c) && c != '/' implies #[trigger] occurrences(
        unit_url(customer_id, org_unit_path),
        c,
    ) == 0 by {
        lemma_unit_url_occurrences(customer_id, org_unit_path, c);
    }
}

/// A listing names its scope always, and the organizational unit to list
/// below only where one is given. Without one, the query is `type=` with the
/// scope and nothing else; with one, `&orgUnitPath=` and the encoded unit
/// follow. Either way the address has six segments, one `?`, one `=` in each
/// parameter and one `&` between two parameters, and besides these it holds
/// ASCII letters and digits, `-`, `.`, `_`, `~` and `%` only.
pub proof fn lemma_list_query(
    customer_id: Seq<char>,
    org_unit_path: Seq<char>,
    type_: DirectoryOrgunitsListType,
)
    ensures
        org_unit_path.len() == 0 ==> list_query_args(org_unit_path, type_).len() == 1 && list_url(
            customer_id,
            org_unit_path,
            type_,
        ) == collection_url(customer_id) + "?type="@ + type_.wire_name(),
        org_unit_path.len() > 0 ==> list_query_args(org_unit_path, type_).len() == 2 && list_url(
            customer_id,
            org_unit_path,
            type_,
        ) == collection_url(customer_id) + "?type="@ + type_.wire_name() + "&orgUnitPath="@
            + encoded_component(org_unit_path),
        occurrences(list_url(customer_id, org_unit_path, type_), '/') == 6,
        occurrences(list_url(customer_id, org_unit_path, type_), '?') == 1,
        occurrences(list_url(customer_id, org_unit_path, type_), '=') == list_query_args(
            org_unit_path,
            type_,
        ).len(),
        occurrences(list_url(customer_id, org_unit_path, type_), '&') == list_query_args(
            org_unit_path,
            type_,
        ).len() - 1,
        forall|c: char|
            !is_component_char(c) && c != '/' && c != '?' && c != '=' && c != '&'
                ==> #[trigger] occurrences(list_url(customer_id, org_unit_path, type_), c) == 0,
{
    let collection = collection_url(customer_id);
    let scope = type_.wire_name();
    let unit = encoded_component(org_unit_path);
    lemma_list_url_occurrences(customer_id, org_unit_path, type_, '/');
    lemma_list_url_occurrences(customer_id, org_unit_path, type_, '?');
    lemma_list_url_occurrences(customer_id, org_unit_path, type_, '=');
    lemma_list_url_occurrences(customer_id, org_unit_path, type_, '&');
    assert forall|c: char|
        !is_component_char(c) && c != '/' && c != '?' && c != '=' && c != '&'
        implies #[trigger] occurrences(list_url(customer_id, org_unit_path, type_), c) == 0 by {
        lemma_list_url_occurrences(customer_id, org_unit_path, type_, c);
    }
    lemma_joined_query(org_unit_path, type_);
    reveal_strlit("?");
    reveal_strlit("type=");
    reveal_strlit("?type=");
    reveal_strlit("orgUnitPath=");
    reveal_strlit("&orgUnitPath=");
    assert("?"@ + "type="@ == "?type="@);
    assert(seq!['&'] + "orgUnitPath="@ == "&orgUnitPath="@);
    if org_unit_path.len() == 0 {
        assert(collection + "?"@ + ("type="@ + scope) == collection + ("?"@ + "type="@) + scope);
    } else {
        assert(collection + "?"@ + ("type="@ + scope + seq!['&'] + ("orgUnitPath="@ + unit))
            == collection + ("?"@ + "type="@) + scope + (seq!['&'] + "orgUnitPath="@) + unit);
    }
}

/// Two customers whose organizational units have the same address are the
/// same customer.
pub proof fn lemma_collection_url_identifies(customer_a: Seq<char>, customer_b: Seq<char>)
    requires
        collection_url(customer_a) == collection_url(customer_b),
    ensures
        customer_a == customer_b,
{
    let prefix = "/admin/directory/v1/customer/"@;
    let a = encoded_component(customer_a);
    let b = encoded_component(customer_b);
    let n: int = prefix.len() as int;
    reveal_strlit("/orgunits");
    lemma_encoded_component_chars(customer_a);
    lemma_encoded_component_chars(customer_b);
    assert(a + "/orgunits"@ == collection_url(customer_a).subrange(
        n,
        collection_url(customer_a).len() as int,
    ));
    assert(b + "/orgunits"@ == collection_url(customer_b).subrange(
        n,
        collection_url(customer_b).len() as int,
    ));
    lemma_split_at_separator(a, "/orgunits"@, b, "/orgunits"@);
    lemma_encoded_component_injective(customer_a, customer_b);
}

/// Two organizational units with the same address are the same unit of the
/// same customer: no way of naming one reaches another.
pub proof fn lemma_unit_url_identifies(
    customer_a: Seq<char>,
    unit_a: Seq<char>,
    customer_b: Seq<char>,
    unit_b: Seq<char>,
)
    requires
        unit_url(customer_a, unit_a) == unit_url(customer_b, unit_b),
    ensures
        customer_a == customer_b,
        unit_a == unit_b,
{
    let prefix = "/admin/directory/v1/customer/"@;
    let middle = "/orgunits"@ + "/"@;
    let a = encoded_component(customer_a);
    let b = encoded_component(customer_b);
    let tail_a = middle + encoded_component(unit_a);
    let tail_b = middle + encoded_component(unit_b);
    let whole_a = prefix + (a + tail_a);
    let whole_b = prefix + (b + tail_b);
    let n: int = prefix.len() as int;
    let m: int = middle.len() as int;
    reveal_strlit("/orgunits");
    reveal_strlit("/");
    lemma_encoded_component_chars(customer_a);
    lemma_encoded_component_chars(customer_b);
    assert(unit_url(customer_a, unit_a) == whole_a);
    assert(unit_url(customer_b, unit_b) == whole_b);
    assert(a + tail_a == whole_a.subrange(n, whole_a.len() as int));
    assert(b + tail_b == whole_b.subrange(n, whole_b.len() as int));
    assert(tail_a[0] == '/');
    assert(tail_b[0] == '/');
    lemma_split_at_separator(a, tail_a, b, tail_b);
    assert(encoded_component(unit_a) == tail_a.subrange(m, tail_a.len() as int));
    assert(encoded_component(unit_b) == tail_b.subrange(m, tail_b.len() as int));
    lemma_encoded_component_injective(customer_a, customer_b);
    lemma_encoded_component_injective(unit_a, unit_b);
}

proof fn lemma_absent(text: Seq<char>, c: char)
    requires
        forall|i: int| 0 <= i < text.len() ==> #[trigger] text[i] != c,
    ensures
        occurrences(text, c) == 0,
    decreases text.len(),
{
    if text.len() > 0 {
        lemma_absent(text.drop_last(), c);
    }
}

proof fn lemma_only_first(text: Seq<char>, c: char)
    requires
        text.len() > 0,
        text[0] == c,
        forall|i: int| 1 <= i < text.len() ==> #[trigger] text[i] != c,
    ensures
        occurrences(text, c) == 1,
{
    let first = seq![c];
    let rest = text.drop_first();
    assert(text == first + rest);
    lemma_occurrences_concat(first, rest, c);
    lemma_absent(rest, c);
    assert(occurrences(first, c) == 1) by {
        reveal_with_fuel(occurrences, 2);
        assert(first.last() == c);
        assert(first.drop_last().len() == 0);
    }
}

proof fn lemma_only_last(text: Seq<char>, c: char)
    requires
        text.len() > 0,
        text.last() == c,
        forall|i: int| 0 <= i < text.len() - 1 ==> #[trigger] text[i] != c,
    ensures
        occurrences(text, c) == 1,
{
    lemma_absent(text.drop_last(), c);
}

proof fn lemma_absent_from_component(text: Seq<char>, c: char)
    requires
        !is_component_char(c),
    ensures
        occurrences(encoded_component(text), c) == 0,
{
    lemma_encoded_component_chars(text);
    lemma_absent(encoded_component(text), c);
}

proof fn lemma_fixed_separators()
    ensures
        occurrences("/admin/directory/v1/customer/"@, '/') == 5,
        occurrences("/orgunits"@, '/') == 1,
        occurrences("/"@, '/') == 1,
{
    reveal_strlit("/admin/directory/v1/customer/");
    reveal_strlit("/admin");
    reveal_strlit("/directory");
    reveal_strlit("/v1");
    reveal_strlit("/customer");
    reveal_strlit("/orgunits");
    reveal_strlit("/");
    lemma_only_first("/admin"@, '/');
    lemma_only_first("/directory"@, '/');
    lemma_only_first("/v1"@, '/');
    lemma_only_first("/customer"@, '/');
    lemma_only_first("/orgunits"@, '/');
    lemma_only_first("/"@, '/');
    lemma_occurrences_concat("/admin"@, "/directory"@, '/');
    lemma_occurrences_concat("/admin"@ + "/directory"@, "/v1"@, '/');
    lemma_occurrences_concat("/admin"@ + "/directory"@ + "/v1"@, "/customer"@, '/');
    lemma_occurrences_concat("/admin"@ + "/directory"@ + "/v1"@ + "/customer"@, "/"@, '/');
    assert("/admin/directory/v1/customer/"@ == "/admin"@ + "/directory"@ + "/v1"@ + "/customer"@
        + "/"@);
}

proof fn lemma_fixed_parts(c: char)
    requires
        !is_component_char(c),
    ensures
        occurrences("/admin/directory/v1/customer/"@, c) == if c == '/' {
            5nat
        } else {
            0nat
        },
        occurrences("/orgunits"@, c) == if c == '/' {
            1nat
        } else {
            0nat
        },
        occurrences("/"@, c) == if c == '/' {
            1nat
        } else {
            0nat
        },
{
    if c == '/' {
        lemma_fixed_separators();
    } else {
        reveal_strlit("/admin/directory/v1/customer/");
        reveal_strlit("/orgunits");
        reveal_strlit("/");
        lemma_absent("/admin/directory/v1/customer/"@, c);
        lemma_absent("/orgunits"@, c);
        lemma_absent("/"@, c);
    }
}

proof fn lemma_collection_url_occurrences(customer_id: Seq<char>, c: char)
    requires
        !is_component_char(c),
    ensures
        occurrences(collection_url(customer_id), c) == if c == '/' {
            6nat
        } else {
            0nat
        },
{
    let prefix = "/admin/directory/v1/customer/"@;
    let customer = encoded_component(customer_id);
    lemma_fixed_parts(c);
    lemma_absent_from_component(customer_id, c);
    lemma_occurrences_concat(prefix, customer, c);
    lemma_occurrences_concat(prefix + customer, "/orgunits"@, c);
}

proof fn lemma_unit_url_occurrences(customer_id: Seq<char>, org_unit_path: Seq<char>, c: char)
    requires
        !is_component_char(c),
    ensures
        occurrences(unit_url(customer_id, org_unit_path), c) == if c == '/' {
            7nat
        } else {
            0nat
        },
{
    let collection = collection_url(customer_id);
    lemma_fixed_parts(c);
    lemma_collection_url_occurrences(customer_id, c);
    lemma_absent_from_component(org_unit_path, c);
    lemma_occurrences_concat(collection, "/"@, c);
    lemma_occurrences_concat(collection + "/"@, encoded_component(org_unit_path), c);
}

proof fn lemma_query_parts(type_: DirectoryOrgunitsListType, c: char)
    requires
        !is_component_char(c),
    ensures
        occurrences("?"@, c) == if c == '?' {
            1nat
        } else {
            0nat
        },
        occurrences("type="@, c) == if c == '=' {
            1nat
        } else {
            0nat
        },
        occurrences(seq!['&'], c) == if c == '&' {
            1nat
        } else {
            0nat
        },
        occurrences("orgUnitPath="@, c) == if c == '=' {
            1nat
        } else {
            0nat
        },
        occurrences(type_.wire_name(), c) == 0,
{
    reveal_strlit("?");
    reveal_strlit("type=");
    reveal_strlit("orgUnitPath=");
    reveal_strlit("ALL_CHILDREN");
    reveal_strlit("CHILDREN");
    lemma_absent(type_.wire_name(), c);
    if c == '?' {
        lemma_only_first("?"@, c);
    } else {
        lemma_absent("?"@, c);
    }
    if c == '&' {
        lemma_only_first(seq!['&'], c);
    } else {
        lemma_absent(seq!['&'], c);
    }
    if c == '=' {
        lemma_only_last("type="@, c);
        lemma_only_last("orgUnitPath="@, c);
    } else {
        lemma_absent("type="@, c);
        lemma_absent("orgUnitPath="@, c);
    }
}

proof fn lemma_joined_query(org_unit_path: Seq<char>, type_: DirectoryOrgunitsListType)
    ensures
        joined(list_query_args(org_unit_path, type_)) == if org_unit_path.len() == 0 {
            "type="@ + type_.wire_name()
        } else {
            "type="@ + type_.wire_name() + seq!['&'] + ("orgUnitPath="@ + encoded_component(
                org_unit_path,
            ))
        },
{
    if org_unit_path.len() > 0 {
        reveal_with_fuel(joined, 2);
        assert(list_query_args(org_unit_path, type_).drop_last() == seq![
            "type="@ + type_.wire_name(),
        ]);
    }
}

proof fn lemma_list_url_occurrences(
    customer_id: Seq<char>,
    org_unit_path: Seq<char>,
    type_: DirectoryOrgunitsListType,
    c: char,
)
    requires
        !is_component_char(c),
    ensures
        occurrences(list_url(customer_id, org_unit_path, type_), c) == if c == '/' {
            6nat
        } else if c == '?' {
            1nat
        } else if c == '=' {
            list_query_args(org_unit_path, type_).len()
        } else if c == '&' {
            (list_query_args(org_unit_path, type_).len() - 1) as nat
        } else {
            0nat
        },
{
    let collection = collection_url(customer_id);
    let scope = "type="@ + type_.wire_name();
    let unit = encoded_component(org_unit_path);
    lemma_collection_url_occurrences(customer_id, c);
    lemma_query_parts(type_, c);
    lemma_absent_from_component(org_unit_path, c);
    lemma_joined_query(org_unit_path, type_);
    lemma_occurrences_concat(collection, "?"@, c);
    lemma_occurrences_concat("type="@, type_.wire_name(), c);
    if org_unit_path.len() == 0 {
        lemma_occurrences_concat(collection + "?"@, scope, c);
    } else {
        let filter = "orgUnitPath="@ + unit;
        lemma_occurrences_concat("orgUnitPath="@, unit, c);
        lemma_occurrences_concat(scope, seq!['&'], c);
        lemma_occurrences_concat(scope + seq!['&'], filter, c);
        lemma_occurrences_concat(collection + "?"@, scope + seq!['&'] + filter, c);
    }
}

proof fn lemma_split_at_separator(
    head_a: Seq<char>,
    tail_a: Seq<char>,
    head_b: Seq<char>,
    tail_b: Seq<char>,
)
    requires
        head_a + tail_a == head_b + tail_b,
        forall|i: int| 0 <= i < head_a.len() ==> #[trigger] head_a[i] != '/',
        forall|i: int| 0 <= i < head_b.len() ==> #[trigger] head_b[i] != '/',
        tail_a.len() > 0 && tail_a[0] == '/',
        tail_b.len() > 0 && tail_b[0] == '/',
    ensures
        head_a == head_b,
        tail_a == tail_b,
{
    let whole_a = head_a + tail_a;
    let whole_b = head_b + tail_b;
    if head_a.len() < head_b.len() {
        assert(whole_a[head_a.len() as int] == '/');
        assert(whole_b[head_a.len() as int] == head_b[head_a.len() as int]);
    }
    if head_b.len() < head_a.len() {
        assert(whole_b[head_b.len() as int] == '/');
        assert(whole_a[head_b.len() as int] == head_a[head_b.len() as int]);
    }
    let n: int = head_a.len() as int;
    assert(head_a == whole_a.subrange(0, n));
    assert(head_b == whole_b.subrange(0, n));
    assert(tail_a == whole_a.subrange(n, whole_a.len() as int));
    assert(tail_b == whole_b.subrange(n, whole_b.len() as int));
}

} // verus!
