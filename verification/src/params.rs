//! The parameters of a request: the pairs of its query string, and those of
//! its body where the query names no `uri`.

use crate::model::Text;
use vstd::hash_map::StringHashMap;
use vstd::prelude::*;
use vstd::string::StringSliceAdditionalSpecFns;
use vstd::utf8::encode_utf8;

verus! {

/// The body of a JSON request: the URI to shorten or to delete.
pub struct Uri {
    pub uri: String,
}

/// The pairs that `application/x-www-form-urlencoded` text decodes to, in
/// the order in which they stand in it.
pub uninterp spec fn form_pairs(input: Seq<u8>) -> Seq<(Seq<char>, Seq<char>)>;

/// The names and values of decoded pairs, as the model sees them.
pub open spec fn pair_texts(pairs: Seq<(String, String)>) -> Seq<(Text, Text)> {
    Seq::new(pairs.len(), |i: int| (pairs[i].0@, pairs[i].1@))
}

/// Calls `url::form_urlencoded::parse` and collects what it yields, each
/// pair as owned strings. The pairs are a function of the input alone: it is
/// split at `&` and `=`, `+` stands for a space, and percent escapes are
/// decoded, lossily where the result is not UTF-8.
#[verifier::external_body]
pub(crate) fn parse_form(input: &[u8]) -> (pairs: Vec<(String, String)>)
    ensures
        pair_texts(pairs@) == form_pairs(input@),
{
    url::form_urlencoded::parse(input).into_owned().collect()
}

/// What a body is taken for, by the request's content type.
#[derive(Clone, Copy, Debug, PartialEq, Eq, Structural)]
pub enum BodyKind {
    Json,
    Form,
    Other,
}

/// `base` with the pairs laid over it in order: a later pair replaces an
/// earlier one of the same name.
pub open spec fn merged(base: Map<Text, Text>, pairs: Seq<(Text, Text)>) -> Map<Text, Text>
    decreases pairs.len(),
{
    if pairs.len() == 0 {
        base
    } else {
        merged(base, pairs.drop_last()).insert(pairs.last().0, pairs.last().1)
    }
}

/// The kind of body that a content type announces. The type is compared as
/// it stands, without parameters.
pub open spec fn body_kind_of(content_type: Option<Text>) -> BodyKind {
    match content_type {
        Some(name) => if name == "application/json"@ {
            BodyKind::Json
        } else if name == "application/x-www-form-urlencoded"@ {
            BodyKind::Form
        } else {
            BodyKind::Other
        },
        None => BodyKind::Other,
    }
}

/// The parameters that decoded pairs give. The query's pairs come first.
/// Where they name no `uri`, a JSON body gives its `uri`, if it could be
/// decoded, and a form body lays its pairs over the query's.
pub open spec fn gathered(
    query: Seq<(Text, Text)>,
    kind: BodyKind,
    body: Seq<(Text, Text)>,
    json: Option<Text>,
) -> Map<Text, Text> {
    let named = merged(Map::empty(), query);
    if named.contains_key("uri"@) {
        named
    } else {
        match kind {
            BodyKind::Json => match json {
                Some(uri) => named.insert("uri"@, uri),
                None => named,
            },
            BodyKind::Form => merged(named, body),
            BodyKind::Other => named,
        }
    }
}

/// The parameters of a request, from its query string, content type and
/// body as they came.
pub open spec fn params_of(
    query: Seq<u8>,
    content_type: Option<Text>,
    body: Seq<u8>,
    json: Option<Text>,
) -> Map<Text, Text> {
    gathered(form_pairs(query), body_kind_of(content_type), form_pairs(body), json)
}

/// The parameters of a map, as the model sees them.
pub open spec fn param_texts(params: Map<Text, String>) -> Map<Text, Text> {
    params.map_values(|s: String| s@)
}

/// The kind of body that a content type announces.
pub fn body_kind(content_type: Option<&str>) -> (kind: BodyKind)
    ensures
        kind == body_kind_of(
            match content_type {
                Some(name) => Some(name@),
                None => None,
            },
        ),
{
    match content_type {
        Some(name) => {
            let name = name.to_owned();
            if name == "application/json".to_owned() {
                BodyKind::Json
            } else if name == "application/x-www-form-urlencoded".to_owned() {
                BodyKind::Form
            } else {
                BodyKind::Other
            }
        },
        None => BodyKind::Other,
    }
}

/// Lays decoded pairs over the parameters, in order.
fn lay_over(params: &mut StringHashMap<String>, pairs: &Vec<(String, String)>)
    ensures
        param_texts(final(params)@) == merged(param_texts(old(params)@), pair_texts(pairs@)),
{
    let ghost base = param_texts(params@);
    let ghost all = pair_texts(pairs@);
    let mut i: usize = 0;
    while i < pairs.len()
        invariant
            i <= pairs.len(),
            all == pair_texts(pairs@),
            param_texts(params@) == merged(base, all.take(i as int)),
        decreases pairs.len() - i,
    {
        let name = pairs[i].0.clone();
        let value = pairs[i].1.clone();
        let ghost before = param_texts(params@);
        params.insert(name, value);
        proof {
            let upto = all.take(i + 1);
            assert(upto.drop_last() =~= all.take(i as int));
            assert(upto.last() == all[i as int]);
            assert(param_texts(params@) =~= before.insert(all[i as int].0, all[i as int].1));
        }
        i += 1;
    }
    proof {
        assert(all.take(i as int) =~= all);
    }
}

/// Gathers the parameters from the decoded pairs of the query and of the
/// body. `json` is the body decoded as JSON, or `None` where it could not be
/// decoded.
pub fn gather(
    query: &Vec<(String, String)>,
    kind: BodyKind,
    body: &Vec<(String, String)>,
    json: Option<Uri>,
) -> (params: StringHashMap<String>)
    ensures
        param_texts(params@) == gathered(
            pair_texts(query@),
            kind,
            pair_texts(body@),
            match json {
                Some(decoded) => Some(decoded.uri@),
                None => None,
            },
        ),
{
    let mut params: StringHashMap<String> = StringHashMap::new();
    proof {
        assert(param_texts(params@) =~= Map::<Text, Text>::empty());
    }
    lay_over(&mut params, query);
    proof {
        assert(param_texts(params@).dom() =~= params@.dom());
    }
    if !params.contains_key("uri") {
        match kind {
            BodyKind::Json => match json {
                Some(decoded) => {
                    let ghost before = param_texts(params@);
                    params.insert("uri".to_owned(), decoded.uri);
                    proof {
                        assert(param_texts(params@) =~= before.insert("uri"@, decoded.uri@));
                    }
                },
                None => {},
            },
            BodyKind::Form => {
                lay_over(&mut params, body);
            },
            BodyKind::Other => {},
        }
    }
    params
}

/// Whether decoded pairs name a `uri`.
pub fn names_uri(pairs: &Vec<(String, String)>) -> (named: bool)
    ensures
        named == merged(Map::empty(), pair_texts(pairs@)).contains_key("uri"@),
{
    let mut params: StringHashMap<String> = StringHashMap::new();
    proof {
        assert(param_texts(params@) =~= Map::<Text, Text>::empty());
    }
    lay_over(&mut params, pairs);
    proof {
        assert(param_texts(params@).dom() =~= params@.dom());
    }
    params.contains_key("uri")
}

/// Whether the parameters of a request depend on its body decoded as JSON:
/// the content type announces JSON and the query names no `uri`.
pub fn needs_json(query: &str, content_type: Option<&str>) -> (needed: bool)
    ensures
        needed == (body_kind_of(
            match content_type {
                Some(name) => Some(name@),
                None => None,
            },
        ) == BodyKind::Json && !merged(
            Map::empty(),
            form_pairs(encode_utf8(query@)),
        ).contains_key("uri"@)),
{
    if body_kind(content_type) != BodyKind::Json {
        return false;
    }
    let named = parse_form(query.as_bytes());
    !names_uri(&named)
}

/// Gathers the parameters of a request from its query string, its content
/// type and its body. `json` is the body decoded as JSON, or `None` where it
/// could not be decoded or was not needed.
pub fn get_params(query: &str, content_type: Option<&str>, body: &[u8], json: Option<Uri>) -> (params:
    StringHashMap<String>)
    ensures
        param_texts(params@) == params_of(
            encode_utf8(query@),
            match content_type {
                Some(name) => Some(name@),
                None => None,
            },
            body@,
            match json {
                Some(decoded) => Some(decoded.uri@),
                None => None,
            },
        ),
{
    let named = parse_form(query.as_bytes());
    let kind = body_kind(content_type);
    let more = if kind == BodyKind::Form {
        parse_form(body)
    } else {
        Vec::new()
    };
    gather(&named, kind, &more, json)
}

} // verus!
