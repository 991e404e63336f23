//! Decoding of a parsed search response into plugin entities. Every field is
//! required; the first fault met, in document order, ends the decoding and
//! names the path of the field at fault.
use vstd::prelude::*;
use crate::codec::{PluginCategory, category_of_title};
use crate::entity::{
    Channel, ChannelModel, Dependency, DependencyModel, Plugin, PluginModel, User, UserModel, Version,
    VersionModel, channels_view, dependencies_view, plugins_view, strings_view, users_view,
};
use crate::json::{Json, get, member, number_to_u32, u32_value};
use crate::text::{decimal, push_decimal};

verus! {

/// Why a field could not be decoded.
#[derive(Clone, Copy, Debug, PartialEq, Eq, Structural)]
pub enum DecodeReason {
    /// The field is absent.
    Missing,
    /// The field holds another kind of JSON value.
    WrongType,
    /// The field holds a number that is not a whole number in range.
    OutOfRange,
    /// The field holds a title that names no known category.
    UnknownCategoryTitle,
}

/// A field that could not be decoded, by its path from the response root
/// (such as `[2].recommended.channel.color`), and why.
#[derive(Clone, Debug)]
pub struct DecodeError {
    pub path: String,
    pub reason: DecodeReason,
}

/// A decoding fault as mathematical values.
pub struct DecodeFault {
    pub path: Seq<char>,
    pub reason: DecodeReason,
}

impl View for DecodeError {
    type V = DecodeFault;

    open spec fn view(&self) -> DecodeFault {
        DecodeFault { path: self.path@, reason: self.reason }
    }
}

/// The fault of reason `reason` at `path`.
pub open spec fn fault(path: Seq<char>, reason: DecodeReason) -> DecodeFault {
    DecodeFault { path, reason }
}

/// The result of a decoder as mathematical values.
pub open spec fn result_view<T: View>(r: Result<T, DecodeError>) -> Result<T::V, DecodeFault> {
    match r {
        Ok(x) => Ok(x@),
        Err(e) => Err(e@),
    }
}

/// The path of member `key` of the value at `path`.
pub open spec fn key_path(path: Seq<char>, key: Seq<char>) -> Seq<char> {
    path + "."@ + key
}

/// The path of element `i` of the array at `path`.
pub open spec fn index_path(path: Seq<char>, i: nat) -> Seq<char> {
    path + "["@ + decimal(i) + "]"@
}

/// Whether `j` is a JSON object.
pub open spec fn is_object(j: Json) -> bool {
    j is Object
}

/// The string member `key` of `j`, which stands at `path`.
pub open spec fn string_at(j: Json, key: Seq<char>, path: Seq<char>) -> Result<Seq<char>, DecodeFault> {
    match member(j, key) {
        Some(Json::Str(s)) => Ok(s@),
        Some(_) => Err(fault(key_path(path, key), DecodeReason::WrongType)),
        None => Err(fault(key_path(path, key), DecodeReason::Missing)),
    }
}

/// The counter member `key` of `j`, which stands at `path`.
pub open spec fn count_at(j: Json, key: Seq<char>, path: Seq<char>) -> Result<u32, DecodeFault> {
    match member(j, key) {
        Some(Json::Number(n)) => match u32_value(n) {
            Some(v) => Ok(v),
            None => Err(fault(key_path(path, key), DecodeReason::OutOfRange)),
        },
        Some(_) => Err(fault(key_path(path, key), DecodeReason::WrongType)),
        None => Err(fault(key_path(path, key), DecodeReason::Missing)),
    }
}

/// The array member `key` of `j`, which stands at `path`.
pub open spec fn array_at(j: Json, key: Seq<char>, path: Seq<char>) -> Result<Seq<Json>, DecodeFault> {
    match member(j, key) {
        Some(Json::Array(items)) => Ok(items@),
        Some(_) => Err(fault(key_path(path, key), DecodeReason::WrongType)),
        None => Err(fault(key_path(path, key), DecodeReason::Missing)),
    }
}

/// Decodes each of `items`, the elements of the array at `path`, with `f`,
/// stopping at the first fault.
pub open spec fn decode_each<T>(
    items: Seq<Json>,
    path: Seq<char>,
    f: spec_fn(Json, Seq<char>) -> Result<T, DecodeFault>,
) -> Result<Seq<T>, DecodeFault>
    decreases items.len(),
{
    if items.len() == 0 {
        Ok(Seq::empty())
    } else {
        match decode_each(items.drop_last(), path, f) {
            Err(e) => Err(e),
            Ok(done) => match f(items.last(), index_path(path, (items.len() - 1) as nat)) {
                Err(e) => Err(e),
                Ok(x) => Ok(done.push(x)),
            },
        }
    }
}

proof fn lemma_decode_each_fault<T>(
    items: Seq<Json>,
    path: Seq<char>,
    f: spec_fn(Json, Seq<char>) -> Result<T, DecodeFault>,
    j: int,
)
    requires
        0 <= j <= items.len(),
        decode_each(items.take(j), path, f) is Err,
    ensures
        decode_each(items, path, f) == decode_each(items.take(j), path, f),
    decreases items.len(),
{
    if j == items.len() {
        assert(items.take(j) =~= items);
    } else {
        let shorter = items.drop_last();
        assert(shorter.take(j) =~= items.take(j));
        lemma_decode_each_fault(shorter, path, f, j);
    }
}

proof fn lemma_decode_each_step<T>(
    items: Seq<Json>,
    path: Seq<char>,
    f: spec_fn(Json, Seq<char>) -> Result<T, DecodeFault>,
    i: int,
)
    requires
        0 <= i < items.len(),
    ensures
        decode_each(items.take(i + 1), path, f) == match decode_each(items.take(i), path, f) {
            Err(e) => Err(e),
            Ok(done) => match f(items[i], index_path(path, i as nat)) {
                Err(e) => Err(e),
                Ok(x) => Ok(done.push(x)),
            },
        },
{
    let s = items.take(i + 1);
    assert(s.drop_last() =~= items.take(i));
    assert(s.last() == items[i]);
}

fn path_of_key(path: &str, key: &str) -> (r: String)
    ensures
        r@ == key_path(path@, key@),
{
    let mut s = path.to_string();
    s.append(".");
    s.append(key);
    proof {
        reveal_strlit(".");
    }
    assert(s@ =~= key_path(path@, key@));
    s
}

fn path_of_index(path: &str, i: usize) -> (r: String)
    ensures
        r@ == index_path(path@, i as nat),
{
    let mut s = path.to_string();
    s.append("[");
    push_decimal(&mut s, i as u64);
    s.append("]");
    proof {
        reveal_strlit("[");
        reveal_strlit("]");
    }
    assert(s@ =~= index_path(path@, i as nat));
    s
}

fn fail<T>(path: String, reason: DecodeReason) -> (r: Result<T, DecodeError>)
    ensures
        r matches Err(e) && e@ == fault(path@, reason),
{
    Err(DecodeError { path, reason })
}

fn string_field(j: &Json, key: &str, path: &str) -> (r: Result<String, DecodeError>)
    ensures
        result_view(r) == string_at(*j, key@, path@),
{
    match get(j, key) {
        Some(Json::Str(s)) => Ok(s.clone()),
        Some(_) => fail(path_of_key(path, key), DecodeReason::WrongType),
        None => fail(path_of_key(path, key), DecodeReason::Missing),
    }
}

fn count_field(j: &Json, key: &str, path: &str) -> (r: Result<u32, DecodeError>)
    ensures
        match r {
            Ok(v) => count_at(*j, key@, path@) == Ok::<u32, DecodeFault>(v),
            Err(e) => count_at(*j, key@, path@) == Err::<u32, DecodeFault>(e@),
        },
{
    match get(j, key) {
        Some(Json::Number(n)) => match number_to_u32(*n) {
            Some(v) => Ok(v),
            None => fail(path_of_key(path, key), DecodeReason::OutOfRange),
        },
        Some(_) => fail(path_of_key(path, key), DecodeReason::WrongType),
        None => fail(path_of_key(path, key), DecodeReason::Missing),
    }
}

fn array_field<'a>(j: &'a Json, key: &str, path: &str) -> (r: Result<&'a Vec<Json>, DecodeError>)
    ensures
        match r {
            Ok(items) => array_at(*j, key@, path@) == Ok::<Seq<Json>, DecodeFault>(items@),
            Err(e) => array_at(*j, key@, path@) == Err::<Seq<Json>, DecodeFault>(e@),
        },
{
    match get(j, key) {
        Some(Json::Array(items)) => Ok(items),
        Some(_) => fail(path_of_key(path, key), DecodeReason::WrongType),
        None => fail(path_of_key(path, key), DecodeReason::Missing),
    }
}

/// A role name, which stands at `path`.
pub open spec fn role_model(j: Json, path: Seq<char>) -> Result<Seq<char>, DecodeFault> {
    match j {
        Json::Str(s) => Ok(s@),
        _ => Err(fault(path, DecodeReason::WrongType)),
    }
}

/// A channel object, which stands at `path`.
pub open spec fn channel_model(j: Json, path: Seq<char>) -> Result<ChannelModel, DecodeFault> {
    if !is_object(j) {
        Err(fault(path, DecodeReason::WrongType))
    } else {
        match string_at(j, "name"@, path) {
            Err(e) => Err(e),
            Ok(name) => match string_at(j, "color"@, path) {
                Err(e) => Err(e),
                Ok(color) => Ok(ChannelModel { name, color }),
            },
        }
    }
}

/// A dependency object, which stands at `path`.
pub open spec fn dependency_model(j: Json, path: Seq<char>) -> Result<DependencyModel, DecodeFault> {
    if !is_object(j) {
        Err(fault(path, DecodeReason::WrongType))
    } else {
        match string_at(j, "pluginId"@, path) {
            Err(e) => Err(e),
            Ok(plugin_id) => match string_at(j, "version"@, path) {
                Err(e) => Err(e),
                Ok(version) => Ok(DependencyModel { plugin_id, version }),
            },
        }
    }
}

/// A user object, which stands at `path`.
pub open spec fn user_model(j: Json, path: Seq<char>) -> Result<UserModel, DecodeFault> {
    if !is_object(j) {
        Err(fault(path, DecodeReason::WrongType))
    } else {
        match count_at(j, "userId"@, path) {
            Err(e) => Err(e),
            Ok(user_id) => match string_at(j, "name"@, path) {
                Err(e) => Err(e),
                Ok(name) => match array_at(j, "roles"@, path) {
                    Err(e) => Err(e),
                    Ok(items) => match decode_each(items, key_path(path, "roles"@), role_decoder()) {
                        Err(e) => Err(e),
                        Ok(roles) => match string_at(j, "headRole"@, path) {
                            Err(e) => Err(e),
                            Ok(head_role) => Ok(UserModel { user_id, name, roles, head_role }),
                        },
                    },
                },
            },
        }
    }
}

/// The channel member of `j`, which stands at `path`.
pub open spec fn channel_at(j: Json, path: Seq<char>) -> Result<ChannelModel, DecodeFault> {
    match member(j, "channel"@) {
        Some(c) => channel_model(c, key_path(path, "channel"@)),
        None => Err(fault(key_path(path, "channel"@), DecodeReason::Missing)),
    }
}

/// A version object, which stands at `path`.
pub open spec fn version_model(j: Json, path: Seq<char>) -> Result<VersionModel, DecodeFault> {
    if !is_object(j) {
        Err(fault(path, DecodeReason::WrongType))
    } else {
        match count_at(j, "id"@, path) {
            Err(e) => Err(e),
            Ok(id) => match string_at(j, "createdAt"@, path) {
                Err(e) => Err(e),
                Ok(created_at) => match string_at(j, "name"@, path) {
                    Err(e) => Err(e),
                    Ok(name) => match array_at(j, "dependencies"@, path) {
                        Err(e) => Err(e),
                        Ok(items) => match decode_each(items, key_path(path, "dependencies"@), dependency_decoder()) {
                            Err(e) => Err(e),
                            Ok(dependencies) => match string_at(j, "pluginId"@, path) {
                                Err(e) => Err(e),
                                Ok(plugin_id) => match channel_at(j, path) {
                                    Err(e) => Err(e),
                                    Ok(channel) => match count_at(j, "fileSize"@, path) {
                                        Err(e) => Err(e),
                                        Ok(file_size) => Ok(VersionModel {
                                            id, created_at, name, dependencies, plugin_id, channel, file_size,
                                        }),
                                    },
                                },
                            },
                        },
                    },
                },
            },
        }
    }
}

/// The category named by the `category.title` member of `j`, which stands at
/// `path`.
pub open spec fn category_at(j: Json, path: Seq<char>) -> Result<PluginCategory, DecodeFault> {
    let cpath = key_path(path, "category"@);
    match member(j, "category"@) {
        None => Err(fault(cpath, DecodeReason::Missing)),
        Some(c) => if !is_object(c) {
            Err(fault(cpath, DecodeReason::WrongType))
        } else {
            match string_at(c, "title"@, cpath) {
                Err(e) => Err(e),
                Ok(t) => match category_of_title(t) {
                    Some(cat) => Ok(cat),
                    None => Err(fault(key_path(cpath, "title"@), DecodeReason::UnknownCategoryTitle)),
                },
            }
        },
    }
}

/// The recommended-version member of `j`, which stands at `path`.
pub open spec fn recommended_at(j: Json, path: Seq<char>) -> Result<VersionModel, DecodeFault> {
    match member(j, "recommended"@) {
        Some(v) => version_model(v, key_path(path, "recommended"@)),
        None => Err(fault(key_path(path, "recommended"@), DecodeReason::Missing)),
    }
}

/// The text members of a plugin object, in order: id, creation time, name,
/// owner, description and link.
pub open spec fn plugin_texts(j: Json, path: Seq<char>) -> Result<Seq<Seq<char>>, DecodeFault> {
    match string_at(j, "pluginId"@, path) {
        Err(e) => Err(e),
        Ok(a) => match string_at(j, "createdAt"@, path) {
            Err(e) => Err(e),
            Ok(b) => match string_at(j, "name"@, path) {
                Err(e) => Err(e),
                Ok(c) => match string_at(j, "owner"@, path) {
                    Err(e) => Err(e),
                    Ok(d) => match string_at(j, "description"@, path) {
                        Err(e) => Err(e),
                        Ok(e2) => match string_at(j, "href"@, path) {
                            Err(e) => Err(e),
                            Ok(f) => Ok(seq![a, b, c, d, e2, f]),
                        },
                    },
                },
            },
        },
    }
}

/// The counters of a plugin object, in order: views, downloads and stars.
pub open spec fn plugin_counts(j: Json, path: Seq<char>) -> Result<(u32, u32, u32), DecodeFault> {
    match count_at(j, "views"@, path) {
        Err(e) => Err(e),
        Ok(views) => match count_at(j, "downloads"@, path) {
            Err(e) => Err(e),
            Ok(downloads) => match count_at(j, "stars"@, path) {
                Err(e) => Err(e),
                Ok(stars) => Ok((views, downloads, stars)),
            },
        },
    }
}

/// The list member `key` of `j`, which stands at `path`, decoded with `f`.
pub open spec fn list_at<T>(
    j: Json,
    key: Seq<char>,
    path: Seq<char>,
    f: spec_fn(Json, Seq<char>) -> Result<T, DecodeFault>,
) -> Result<Seq<T>, DecodeFault> {
    match array_at(j, key, path) {
        Err(e) => Err(e),
        Ok(items) => decode_each(items, key_path(path, key), f),
    }
}

/// A plugin object, which stands at `path`.
pub open spec fn plugin_model(j: Json, path: Seq<char>) -> Result<PluginModel, DecodeFault> {
    if !is_object(j) {
        Err(fault(path, DecodeReason::WrongType))
    } else {
        match plugin_texts(j, path) {
            Err(e) => Err(e),
            Ok(t) => match list_at(j, "members"@, path, user_decoder()) {
                Err(e) => Err(e),
                Ok(members) => match list_at(j, "channels"@, path, channel_decoder()) {
                    Err(e) => Err(e),
                    Ok(channels) => match recommended_at(j, path) {
                        Err(e) => Err(e),
                        Ok(recommended) => match category_at(j, path) {
                            Err(e) => Err(e),
                            Ok(category) => match plugin_counts(j, path) {
                                Err(e) => Err(e),
                                Ok(n) => Ok(PluginModel {
                                    plugin_id: t[0],
                                    created_at: t[1],
                                    name: t[2],
                                    owner: t[3],
                                    description: t[4],
                                    href: t[5],
                                    members,
                                    channels,
                                    recommended,
                                    category,
                                    views: n.0,
                                    downloads: n.1,
                                    stars: n.2,
                                }),
                            },
                        },
                    },
                },
            },
        }
    }
}

/// A whole response: an array of plugin objects, whose elements stand at
/// `[0]`, `[1]`, and so on.
pub open spec fn response_model(j: Json) -> Result<Seq<PluginModel>, DecodeFault> {
    match j {
        Json::Array(items) => decode_each(items@, Seq::empty(), plugin_decoder()),
        _ => Err(fault(Seq::empty(), DecodeReason::WrongType)),
    }
}

/// The decoder of one role element, as a spec function.
pub open spec fn role_decoder() -> spec_fn(Json, Seq<char>) -> Result<Seq<char>, DecodeFault> {
    |j: Json, p: Seq<char>| role_model(j, p)
}

/// The decoder of one channel element, as a spec function.
pub open spec fn channel_decoder() -> spec_fn(Json, Seq<char>) -> Result<ChannelModel, DecodeFault> {
    |j: Json, p: Seq<char>| channel_model(j, p)
}

/// The decoder of one dependency element, as a spec function.
pub open spec fn dependency_decoder() -> spec_fn(Json, Seq<char>) -> Result<DependencyModel, DecodeFault> {
    |j: Json, p: Seq<char>| dependency_model(j, p)
}

/// The decoder of one user element, as a spec function.
pub open spec fn user_decoder() -> spec_fn(Json, Seq<char>) -> Result<UserModel, DecodeFault> {
    |j: Json, p: Seq<char>| user_model(j, p)
}

/// The decoder of one plugin element, as a spec function.
pub open spec fn plugin_decoder() -> spec_fn(Json, Seq<char>) -> Result<PluginModel, DecodeFault> {
    |j: Json, p: Seq<char>| plugin_model(j, p)
}

fn parse_channel(j: &Json, path: &str) -> (r: Result<Channel, DecodeError>)
    ensures
        result_view(r) == channel_model(*j, path@),
{
    if !matches!(j, Json::Object(_)) {
        return fail(path.to_string(), DecodeReason::WrongType);
    }
    let name = match string_field(j, "name", path) {
        Ok(v) => v,
        Err(e) => return Err(e),
    };
    let color = match string_field(j, "color", path) {
        Ok(v) => v,
        Err(e) => return Err(e),
    };
    Ok(Channel { name, color })
}

fn parse_dependency(j: &Json, path: &str) -> (r: Result<Dependency, DecodeError>)
    ensures
        result_view(r) == dependency_model(*j, path@),
{
    if !matches!(j, Json::Object(_)) {
        return fail(path.to_string(), DecodeReason::WrongType);
    }
    let plugin_id = match string_field(j, "pluginId", path) {
        Ok(v) => v,
        Err(e) => return Err(e),
    };
    let version = match string_field(j, "version", path) {
        Ok(v) => v,
        Err(e) => return Err(e),
    };
    Ok(Dependency { plugin_id, version })
}

fn parse_roles(items: &Vec<Json>, path: &str) -> (r: Result<Vec<String>, DecodeError>)
    ensures
        match r {
            Ok(v) => decode_each(items@, path@, role_decoder()) == Ok::<Seq<Seq<char>>, DecodeFault>(strings_view(v@)),
            Err(e) => decode_each(items@, path@, role_decoder()) == Err::<Seq<Seq<char>>, DecodeFault>(e@),
        },
{
    let mut out: Vec<String> = Vec::new();
    let n = items.len();
    let mut i: usize = 0;
    assert(strings_view(out@) =~= Seq::empty());
    while i < n
        invariant
            n == items@.len(),
            i <= n,
            decode_each(items@.take(i as int), path@, role_decoder()) == Ok::<Seq<Seq<char>>, DecodeFault>(strings_view(out@)),
        decreases n - i,
    {
        proof {
            lemma_decode_each_step(items@, path@, role_decoder(), i as int);
        }
        match &items[i] {
            Json::Str(s) => {
                let ghost before = out@;
                out.push(s.clone());
                assert(strings_view(out@) =~= strings_view(before).push(s@));
            },
            _ => {
                let r = fail(path_of_index(path, i), DecodeReason::WrongType);
                proof {
                    lemma_decode_each_fault(items@, path@, role_decoder(), i + 1);
                }
                return r;
            },
        }
        i = i + 1;
    }
    assert(items@.take(n as int) =~= items@);
    Ok(out)
}

fn parse_channels(items: &Vec<Json>, path: &str) -> (r: Result<Vec<Channel>, DecodeError>)
    ensures
        match r {
            Ok(v) => decode_each(items@, path@, channel_decoder()) == Ok::<Seq<ChannelModel>, DecodeFault>(channels_view(v@)),
            Err(e) => decode_each(items@, path@, channel_decoder()) == Err::<Seq<ChannelModel>, DecodeFault>(e@),
        },
{
    let mut out: Vec<Channel> = Vec::new();
    let n = items.len();
    let mut i: usize = 0;
    assert(channels_view(out@) =~= Seq::empty());
    while i < n
        invariant
            n == items@.len(),
            i <= n,
            decode_each(items@.take(i as int), path@, channel_decoder()) == Ok::<Seq<ChannelModel>, DecodeFault>(channels_view(out@)),
        decreases n - i,
    {
        proof {
            lemma_decode_each_step(items@, path@, channel_decoder(), i as int);
        }
        let p = path_of_index(path, i);
        match parse_channel(&items[i], p.as_str()) {
            Ok(x) => {
                let ghost before = out@;
                out.push(x);
                assert(channels_view(out@) =~= channels_view(before).push(x@));
            },
            Err(e) => {
                proof {
                    lemma_decode_each_fault(items@, path@, channel_decoder(), i + 1);
                }
                return Err(e);
            },
        }
        i = i + 1;
    }
    assert(items@.take(n as int) =~= items@);
    Ok(out)
}

fn parse_dependencies(items: &Vec<Json>, path: &str) -> (r: Result<Vec<Dependency>, DecodeError>)
    ensures
        match r {
            Ok(v) => decode_each(items@, path@, dependency_decoder()) == Ok::<Seq<DependencyModel>, DecodeFault>(dependencies_view(v@)),
            Err(e) => decode_each(items@, path@, dependency_decoder()) == Err::<Seq<DependencyModel>, DecodeFault>(e@),
        },
{
    let mut out: Vec<Dependency> = Vec::new();
    let n = items.len();
    let mut i: usize = 0;
    assert(dependencies_view(out@) =~= Seq::empty());
    while i < n
        invariant
            n == items@.len(),
            i <= n,
            decode_each(items@.take(i as int), path@, dependency_decoder()) == Ok::<Seq<DependencyModel>, DecodeFault>(dependencies_view(out@)),
        decreases n - i,
    {
        proof {
            lemma_decode_each_step(items@, path@, dependency_decoder(), i as int);
        }
        let p = path_of_index(path, i);
        match parse_dependency(&items[i], p.as_str()) {
            Ok(x) => {
                let ghost before = out@;
                out.push(x);
                assert(dependencies_view(out@) =~= dependencies_view(before).push(x@));
            },
            Err(e) => {
                proof {
                    lemma_decode_each_fault(items@, path@, dependency_decoder(), i + 1);
                }
                return Err(e);
            },
        }
        i = i + 1;
    }
    assert(items@.take(n as int) =~= items@);
    Ok(out)
}

fn parse_user(j: &Json, path: &str) -> (r: Result<User, DecodeError>)
    ensures
        result_view(r) == user_model(*j, path@),
{
    if !matches!(j, Json::Object(_)) {
        return fail(path.to_string(), DecodeReason::WrongType);
    }
    let user_id = match count_field(j, "userId", path) {
        Ok(v) => v,
        Err(e) => return Err(e),
    };
    let name = match string_field(j, "name", path) {
        Ok(v) => v,
        Err(e) => return Err(e),
    };
    let items = match array_field(j, "roles", path) {
        Ok(v) => v,
        Err(e) => return Err(e),
    };
    let rpath = path_of_key(path, "roles");
    let roles = match parse_roles(items, rpath.as_str()) {
        Ok(v) => v,
        Err(e) => return Err(e),
    };
    let head_role = match string_field(j, "headRole", path) {
        Ok(v) => v,
        Err(e) => return Err(e),
    };
    Ok(User { user_id, name, roles, head_role })
}

fn parse_version(j: &Json, path: &str) -> (r: Result<Version, DecodeError>)
    ensures
        result_view(r) == version_model(*j, path@),
{
    if !matches!(j, Json::Object(_)) {
        return fail(path.to_string(), DecodeReason::WrongType);
    }
    let id = match count_field(j, "id", path) {
        Ok(v) => v,
        Err(e) => return Err(e),
    };
    let created_at = match string_field(j, "createdAt", path) {
        Ok(v) => v,
        Err(e) => return Err(e),
    };
    let name = match string_field(j, "name", path) {
        Ok(v) => v,
        Err(e) => return Err(e),
    };
    let items = match array_field(j, "dependencies", path) {
        Ok(v) => v,
        Err(e) => return Err(e),
    };
    let dpath = path_of_key(path, "dependencies");
    let dependencies = match parse_dependencies(items, dpath.as_str()) {
        Ok(v) => v,
        Err(e) => return Err(e),
    };
    let plugin_id = match string_field(j, "pluginId", path) {
        Ok(v) => v,
        Err(e) => return Err(e),
    };
    let cpath = path_of_key(path, "channel");
    let channel = match get(j, "channel") {
        Some(c) => match parse_channel(c, cpath.as_str()) {
            Ok(v) => v,
            Err(e) => return Err(e),
        },
        None => return fail(cpath, DecodeReason::Missing),
    };
    let file_size = match count_field(j, "fileSize", path) {
        Ok(v) => v,
        Err(e) => return Err(e),
    };
    Ok(Version { id, created_at, name, dependencies, plugin_id, channel, file_size })
}

fn parse_category(j: &Json, path: &str) -> (r: Result<PluginCategory, DecodeError>)
    ensures
        match r {
            Ok(c) => category_at(*j, path@) == Ok::<PluginCategory, DecodeFault>(c),
            Err(e) => category_at(*j, path@) == Err::<PluginCategory, DecodeFault>(e@),
        },
{
    let cpath = path_of_key(path, "category");
    let c = match get(j, "category") {
        Some(c) => c,
        None => return fail(cpath, DecodeReason::Missing),
    };
    if !matches!(c, Json::Object(_)) {
        return fail(cpath, DecodeReason::WrongType);
    }
    let title = match string_field(c, "title", cpath.as_str()) {
        Ok(v) => v,
        Err(e) => return Err(e),
    };
    match PluginCategory::from_str(title.as_str()) {
        Ok(cat) => Ok(cat),
        Err(_) => fail(path_of_key(cpath.as_str(), "title"), DecodeReason::UnknownCategoryTitle),
    }
}

#[verifier::rlimit(40)]
fn parse_plugin(j: &Json, path: &str) -> (r: Result<Plugin, DecodeError>)
    ensures
        result_view(r) == plugin_model(*j, path@),
{
    if !matches!(j, Json::Object(_)) {
        return fail(path.to_string(), DecodeReason::WrongType);
    }
    let plugin_id = match string_field(j, "pluginId", path) {
        Ok(v) => v,
        Err(e) => return Err(e),
    };
    let created_at = match string_field(j, "createdAt", path) {
        Ok(v) => v,
        Err(e) => return Err(e),
    };
    let name = match string_field(j, "name", path) {
        Ok(v) => v,
        Err(e) => return Err(e),
    };
    let owner = match string_field(j, "owner", path) {
        Ok(v) => v,
        Err(e) => return Err(e),
    };
    let description = match string_field(j, "description", path) {
        Ok(v) => v,
        Err(e) => return Err(e),
    };
    let href = match string_field(j, "href", path) {
        Ok(v) => v,
        Err(e) => return Err(e),
    };
    let ghost texts = seq![plugin_id@, created_at@, name@, owner@, description@, href@];
    assert(plugin_texts(*j, path@) == Ok::<Seq<Seq<char>>, DecodeFault>(texts));
    let items = match array_field(j, "members", path) {
        Ok(v) => v,
        Err(e) => return Err(e),
    };
    let mpath = path_of_key(path, "members");
    let members = match parse_users(items, mpath.as_str()) {
        Ok(v) => v,
        Err(e) => return Err(e),
    };
    let items = match array_field(j, "channels", path) {
        Ok(v) => v,
        Err(e) => return Err(e),
    };
    let chpath = path_of_key(path, "channels");
    let channels = match parse_channels(items, chpath.as_str()) {
        Ok(v) => v,
        Err(e) => return Err(e),
    };
    let rpath = path_of_key(path, "recommended");
    let recommended = match get(j, "recommended") {
        Some(v) => match parse_version(v, rpath.as_str()) {
            Ok(v) => v,
            Err(e) => return Err(e),
        },
        None => return fail(rpath, DecodeReason::Missing),
    };
    let category = match parse_category(j, path) {
        Ok(v) => v,
        Err(e) => return Err(e),
    };
    let views = match count_field(j, "views", path) {
        Ok(v) => v,
        Err(e) => return Err(e),
    };
    let downloads = match count_field(j, "downloads", path) {
        Ok(v) => v,
        Err(e) => return Err(e),
    };
    let stars = match count_field(j, "stars", path) {
        Ok(v) => v,
        Err(e) => return Err(e),
    };
    Ok(Plugin {
        plugin_id,
        created_at,
        name,
        owner,
        description,
        href,
        members,
        channels,
        recommended,
        category,
        views,
        downloads,
        stars,
    })
}

fn parse_users(items: &Vec<Json>, path: &str) -> (r: Result<Vec<User>, DecodeError>)
    ensures
        match r {
            Ok(v) => decode_each(items@, path@, user_decoder()) == Ok::<Seq<UserModel>, DecodeFault>(users_view(v@)),
            Err(e) => decode_each(items@, path@, user_decoder()) == Err::<Seq<UserModel>, DecodeFault>(e@),
        },
{
    let mut out: Vec<User> = Vec::new();
    let n = items.len();
    let mut i: usize = 0;
    assert(users_view(out@) =~= Seq::empty());
    while i < n
        invariant
            n == items@.len(),
            i <= n,
            decode_each(items@.take(i as int), path@, user_decoder()) == Ok::<Seq<UserModel>, DecodeFault>(users_view(out@)),
        decreases n - i,
    {
        proof {
            lemma_decode_each_step(items@, path@, user_decoder(), i as int);
        }
        let p = path_of_index(path, i);
        match parse_user(&items[i], p.as_str()) {
            Ok(x) => {
                let ghost before = out@;
                out.push(x);
                assert(users_view(out@) =~= users_view(before).push(x@));
            },
            Err(e) => {
                proof {
                    lemma_decode_each_fault(items@, path@, user_decoder(), i + 1);
                }
                return Err(e);
            },
        }
        i = i + 1;
    }
    assert(items@.take(n as int) =~= items@);
    Ok(out)
}

/// Decodes a whole search response: an array of plugin objects, in order.
/// The first fault met ends the decoding, and no plugin is returned then.
pub fn decode_response(j: &Json) -> (r: Result<Vec<Plugin>, DecodeError>)
    ensures
        match r {
            Ok(v) => response_model(*j) == Ok::<Seq<PluginModel>, DecodeFault>(plugins_view(v@)),
            Err(e) => response_model(*j) == Err::<Seq<PluginModel>, DecodeFault>(e@),
        },
{
    let items = match j {
        Json::Array(items) => items,
        _ => return fail(String::new(), DecodeReason::WrongType),
    };
    let mut out: Vec<Plugin> = Vec::new();
    let n = items.len();
    let mut i: usize = 0;
    assert(plugins_view(out@) =~= Seq::empty());
    while i < n
        invariant
            n == items@.len(),
            i <= n,
            response_model(*j) == decode_each(items@, Seq::empty(), plugin_decoder()),
            decode_each(items@.take(i as int), Seq::empty(), plugin_decoder()) == Ok::<Seq<PluginModel>, DecodeFault>(plugins_view(out@)),
        decreases n - i,
    {
        proof {
            lemma_decode_each_step(items@, Seq::empty(), plugin_decoder(), i as int);
        }
        let p = path_of_index("", i);
        proof {
            reveal_strlit("");
        }
        match parse_plugin(&items[i], p.as_str()) {
            Ok(x) => {
                let ghost before = out@;
                out.push(x);
                assert(plugins_view(out@) =~= plugins_view(before).push(x@));
            },
            Err(e) => {
                proof {
                    lemma_decode_each_fault(items@, Seq::empty(), plugin_decoder(), i + 1);
                }
                return Err(e);
            },
        }
        i = i + 1;
    }
    assert(items@.take(n as int) =~= items@);
    Ok(out)
}

/// An empty array decodes to no plugins, without fault.
pub proof fn lemma_empty_response(items: Vec<Json>)
    requires
        items@.len() == 0,
    ensures
        response_model(Json::Array(items)) == Ok::<Seq<PluginModel>, DecodeFault>(Seq::empty()),
{
}

/// When the elements before element `k` of a response decode, and element
/// `k` has its id and creation time but no `name`, the whole response fails,
/// missing `[k].name`.
pub proof fn lemma_missing_name(items: Vec<Json>, k: int)
    requires
        0 <= k < items@.len(),
        decode_each(items@.take(k), Seq::empty(), plugin_decoder()) is Ok,
        is_object(items@[k]),
        string_at(items@[k], "pluginId"@, index_path(Seq::empty(), k as nat)) is Ok,
        string_at(items@[k], "createdAt"@, index_path(Seq::empty(), k as nat)) is Ok,
        member(items@[k], "name"@) is None,
    ensures
        response_model(Json::Array(items)) == Err::<Seq<PluginModel>, DecodeFault>(
            fault(key_path(index_path(Seq::empty(), k as nat), "name"@), DecodeReason::Missing),
        ),
{
    lemma_decode_each_step(items@, Seq::empty(), plugin_decoder(), k);
    lemma_decode_each_fault(items@, Seq::empty(), plugin_decoder(), k + 1);
}

/// The path of the `name` of the first element is `[0].name`.
pub proof fn lemma_first_name_path()
    ensures
        key_path(index_path(Seq::empty(), 0), "name"@) == "[0].name"@,
{
    reveal_strlit("[0].name");
    reveal_strlit("[");
    reveal_strlit("]");
    reveal_strlit(".");
    reveal_strlit("name");
    assert(key_path(index_path(Seq::empty(), 0), "name"@) =~= "[0].name"@);
}

/// A plugin whose fields before its category decode, and whose
/// `category.title` is a string that titles no category, fails with an
/// unknown category title at that path.
pub proof fn lemma_unknown_title(j: Json, path: Seq<char>, c: Json, t: Seq<char>)
    requires
        is_object(j),
        plugin_texts(j, path) is Ok,
        list_at(j, "members"@, path, user_decoder()) is Ok,
        list_at(j, "channels"@, path, channel_decoder()) is Ok,
        recommended_at(j, path) is Ok,
        member(j, "category"@) == Some(c),
        is_object(c),
        string_at(c, "title"@, key_path(path, "category"@)) == Ok::<Seq<char>, DecodeFault>(t),
        category_of_title(t) is None,
    ensures
        plugin_model(j, path) == Err::<PluginModel, DecodeFault>(
            fault(key_path(key_path(path, "category"@), "title"@), DecodeReason::UnknownCategoryTitle),
        ),
{
}

} // verus!
