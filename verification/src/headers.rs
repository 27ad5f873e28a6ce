//! The headers that the resolution of a query adds to the response.

use vstd::prelude::*;

verus! {

/// Whether `c` may stand in the name of a header: a letter or a digit of
/// ASCII, or one of ``! " # $ % & ' * + - . ^ _ ` | ~``.
pub open spec fn is_header_char(c: char) -> bool {
    ('a' <= c && c <= 'z') || ('A' <= c && c <= 'Z') || ('0' <= c && c <= '9') || c == '!' || c
        == '"' || c == '#' || c == '$' || c == '%' || c == '&' || c == '\'' || c == '*' || c
        == '+' || c == '-' || c == '.' || c == '^' || c == '_' || c == '`' || c == '|' || c == '~'
}

/// The letter `c` in lower case; any other character as it is.
pub open spec fn lower(c: char) -> char {
    if 'A' <= c && c <= 'Z' {
        ((c as u8) + 32) as u8 as char
    } else {
        c
    }
}

/// The name under which a header is kept: `name` in lower case, if it has
/// between 1 and 65535 characters and each may stand in the name of a
/// header; none for any other text.
pub open spec fn canonical_name(name: Seq<char>) -> Option<Seq<char>> {
    if 1 <= name.len() <= 65535 && forall|i: int|
        0 <= i < name.len() ==> is_header_char(#[trigger] name[i]) {
        Some(Seq::new(name.len(), |i: int| lower(name[i])))
    } else {
        None
    }
}

/// Why a header was not set.
#[derive(Debug, Clone, Copy, PartialEq, Eq, Structural)]
pub enum HeaderError {
    /// The name is not the name of a header.
    InvalidName,
    /// The map of headers is full.
    MaxSizeReached,
}

/// `http::HeaderMap`: a map from the names of headers to their values, known
/// here only through the functions below.
#[verifier::external_type_specification]
#[verifier::external_body]
#[verifier::reject_recursive_types(T)]
pub struct ExHeaderMap<T>(http::HeaderMap<T>);

/// What a map of headers holds: for each name that has values, in lower
/// case, its values from the first to the last.
pub uninterp spec fn header_values(map: http::HeaderMap<String>) -> Map<Seq<char>, Seq<Seq<char>>>;

/// No headers at all.
pub open spec fn no_headers() -> Map<Seq<char>, Seq<Seq<char>>> {
    Map::empty()
}

/// A number of names that a map of headers always has room for: a map that
/// holds fewer names than this never refuses another one. A map refuses to
/// grow only when its table of 32768 places would have to double, which
/// takes at least this many names.
pub const SURE_ROOM: usize = 6554;

/// Whether `headers` hold so few names that another one is sure to fit.
pub open spec fn has_room(headers: Map<Seq<char>, Seq<Seq<char>>>) -> bool {
    headers.dom().finite() && headers.dom().len() < SURE_ROOM
}

/// `HeaderMap::default`: a map that holds nothing.
#[verifier::external_body]
fn map_new() -> (r: http::HeaderMap<String>)
    ensures
        header_values(r) == no_headers(),
{
    http::HeaderMap::default()
}

/// `HeaderMap::contains_key` with a string as the key: whether the key is
/// the name of a header, in any case of its letters, and the map holds a
/// value under it.
#[verifier::external_body]
fn map_contains_key(map: &http::HeaderMap<String>, key: &str) -> (r: bool)
    ensures
        r == match canonical_name(key@) {
            Some(name) => header_values(*map).contains_key(name),
            None => false,
        },
{
    map.contains_key(key)
}

/// `HeaderName::from_bytes`, then `HeaderMap::try_insert`.
///
/// A text that is not the name of a header is refused. Otherwise the value
/// becomes the only one under the name, and the first of the values that
/// stood there before is returned. The map may refuse to grow, but not
/// while it holds fewer than `SURE_ROOM` names; where it refuses, nothing
/// has changed.
#[verifier::external_body]
fn map_insert(map: &mut http::HeaderMap<String>, name: &str, value: String) -> (r: Result<
    Option<String>,
    HeaderError,
>)
    ensures
        canonical_name(name@) is Some && has_room(header_values(*old(map))) ==> r is Ok,
        match r {
            Ok(previous) => canonical_name(name@) is Some && header_values(*final(map))
                == header_values(*old(map)).insert(canonical_name(name@)->Some_0, seq![value@])
                && match previous {
                Some(first) => header_values(*old(map)).contains_key(
                    canonical_name(name@)->Some_0,
                ) && first@ == header_values(*old(map))[canonical_name(name@)->Some_0][0],
                None => !header_values(*old(map)).contains_key(canonical_name(name@)->Some_0),
            },
            Err(e) => header_values(*final(map)) == header_values(*old(map)) && (e
                == HeaderError::InvalidName <==> canonical_name(name@) is None),
        },
{
    match http::header::HeaderName::from_bytes(name.as_bytes()) {
        Ok(name) => match map.try_insert(name, value) {
            Ok(previous) => Ok(previous),
            Err(_) => Err(HeaderError::MaxSizeReached),
        },
        Err(_) => Err(HeaderError::InvalidName),
    }
}

/// `HeaderName::from_bytes`, then `HeaderMap::try_append`.
///
/// A text that is not the name of a header is refused. Otherwise the value
/// is added after the values that stand under the name, and the result
/// says whether there were any. The map may refuse to grow, but not while
/// it holds fewer than `SURE_ROOM` names; where it refuses, nothing has
/// changed.
#[verifier::external_body]
fn map_append(map: &mut http::HeaderMap<String>, name: &str, value: String) -> (r: Result<
    bool,
    HeaderError,
>)
    ensures
        canonical_name(name@) is Some && has_room(header_values(*old(map))) ==> r is Ok,
        match r {
            Ok(existed) => canonical_name(name@) is Some && existed == header_values(
                *old(map),
            ).contains_key(canonical_name(name@)->Some_0) && header_values(*final(map))
                == header_values(*old(map)).insert(
                canonical_name(name@)->Some_0,
                if existed {
                    header_values(*old(map))[canonical_name(name@)->Some_0].push(value@)
                } else {
                    seq![value@]
                },
            ),
            Err(e) => header_values(*final(map)) == header_values(*old(map)) && (e
                == HeaderError::InvalidName <==> canonical_name(name@) is None),
        },
{
    match http::header::HeaderName::from_bytes(name.as_bytes()) {
        Ok(name) => match map.try_append(name, value) {
            Ok(existed) => Ok(existed),
            Err(_) => Err(HeaderError::MaxSizeReached),
        },
        Err(_) => Err(HeaderError::InvalidName),
    }
}

/// `HeaderMap::get_all` with a string as the key: the values under the
/// key, from the first to the last; none where the key is not the name of a
/// header or the map holds nothing under it.
#[verifier::external_body]
fn map_get_all(map: &http::HeaderMap<String>, key: &str) -> (r: Vec<String>)
    ensures
        r.deep_view() == match canonical_name(key@) {
            Some(name) => if header_values(*map).contains_key(name) {
                header_values(*map)[name]
            } else {
                Seq::<Seq<char>>::empty()
            },
            None => Seq::<Seq<char>>::empty(),
        },
{
    map.get_all(key).iter().cloned().collect()
}

/// The headers that the resolution of a query adds to the response. A name
/// may have several values; names are kept in lower case.
pub struct Headers {
    map: http::HeaderMap<String>,
}

impl View for Headers {
    type V = Map<Seq<char>, Seq<Seq<char>>>;

    closed spec fn view(&self) -> Map<Seq<char>, Seq<Seq<char>>> {
        header_values(self.map)
    }
}

/// The values under `key` in `headers`, from the first to the last.
pub open spec fn values_of(headers: Map<Seq<char>, Seq<Seq<char>>>, key: Seq<char>) -> Seq<
    Seq<char>,
> {
    match canonical_name(key) {
        Some(name) => if headers.contains_key(name) {
            headers[name]
        } else {
            Seq::empty()
        },
        None => Seq::empty(),
    }
}

/// Whether `headers` hold a value under `key`.
pub open spec fn has_header(headers: Map<Seq<char>, Seq<Seq<char>>>, key: Seq<char>) -> bool {
    match canonical_name(key) {
        Some(name) => headers.contains_key(name),
        None => false,
    }
}

impl Headers {
    /// No headers.
    pub fn new() -> (r: Self)
        ensures
            r@ == no_headers(),
    {
        Headers { map: map_new() }
    }

    /// Whether a header `key` is set. The case of the letters of `key` does
    /// not matter.
    pub fn contains(&self, key: &str) -> (r: bool)
        ensures
            r == has_header(self@, key@),
    {
        map_contains_key(&self.map, key)
    }

    /// Sets the header `name` to `value` alone.
    ///
    /// All values that the header had are removed, and the first of them is
    /// returned. Fails, and changes nothing, if `name` is not the name of a
    /// header or the map of headers cannot grow. A name of a header always
    /// succeeds while the headers hold fewer than `SURE_ROOM` names.
    pub fn insert(&mut self, name: &str, value: String) -> (r: Result<Option<String>, HeaderError>)
        ensures
            canonical_name(name@) is Some && has_room(old(self)@) ==> r is Ok,
            match r {
                Ok(previous) => canonical_name(name@) is Some && final(self)@ == old(self)@.insert(
                    canonical_name(name@)->Some_0,
                    seq![value@],
                ) && match previous {
                    Some(first) => has_header(old(self)@, name@) && first@ == values_of(
                        old(self)@,
                        name@,
                    )[0],
                    None => !has_header(old(self)@, name@),
                },
                Err(e) => final(self)@ == old(self)@ && (e == HeaderError::InvalidName
                    <==> canonical_name(name@) is None),
            },
    {
        map_insert(&mut self.map, name, value)
    }

    /// Adds `value` to the values of the header `name`, after those that it
    /// has, and tells whether it had any.
    ///
    /// Fails, and changes nothing, if `name` is not the name of a header or
    /// the map of headers cannot grow. A name of a header always succeeds
    /// while the headers hold fewer than `SURE_ROOM` names.
    pub fn append(&mut self, name: &str, value: String) -> (r: Result<bool, HeaderError>)
        ensures
            canonical_name(name@) is Some && has_room(old(self)@) ==> r is Ok,
            match r {
                Ok(existed) => canonical_name(name@) is Some && existed == has_header(
                    old(self)@,
                    name@,
                ) && final(self)@ == old(self)@.insert(
                    canonical_name(name@)->Some_0,
                    values_of(old(self)@, name@).push(value@),
                ),
                Err(e) => final(self)@ == old(self)@ && (e == HeaderError::InvalidName
                    <==> canonical_name(name@) is None),
            },
    {
        let r = map_append(&mut self.map, name, value);
        proof {
            if r is Ok && !r->Ok_0 {
                assert(values_of(old(self)@, name@).push(value@) =~= seq![value@]);
            }
        }
        r
    }

    /// The values of the header `key`, from the first to the last.
    pub fn get_all(&self, key: &str) -> (r: Vec<String>)
        ensures
            r.deep_view() == values_of(self@, key@),
    {
        map_get_all(&self.map, key)
    }
}

/// Setting a header and then setting it again returns the first value, and
/// leaves the second as the only one.
pub proof fn lemma_insert_twice(
    headers: Map<Seq<char>, Seq<Seq<char>>>,
    name: Seq<char>,
    first: Seq<char>,
    second: Seq<char>,
)
    requires
        canonical_name(name) is Some,
    ensures
        ({
            let key = canonical_name(name)->Some_0;
            let once = headers.insert(key, seq![first]);
            let twice = once.insert(key, seq![second]);
            &&& has_header(once, name)
            &&& values_of(once, name)[0] == first
            &&& values_of(twice, name) == seq![second]
        }),
{
}

/// Adding a value to a header that has values keeps them, in their order,
/// and puts the new value after them.
pub proof fn lemma_append_keeps(
    headers: Map<Seq<char>, Seq<Seq<char>>>,
    name: Seq<char>,
    value: Seq<char>,
)
    requires
        canonical_name(name) is Some,
    ensures
        ({
            let key = canonical_name(name)->Some_0;
            let after = headers.insert(key, values_of(headers, name).push(value));
            &&& values_of(after, name).len() == values_of(headers, name).len() + 1
            &&& values_of(after, name).last() == value
            &&& forall|i: int|
                0 <= i < values_of(headers, name).len() ==> values_of(after, name)[i] == values_of(
                    headers,
                    name,
                )[i]
        }),
{
}

/// `spin::mutex::Mutex`: a lock that is taken by waiting in a loop.
#[verifier::external_type_specification]
#[verifier::external_body]
#[verifier::reject_recursive_types(T)]
#[verifier::reject_recursive_types(R)]
pub struct ExMutex<T: ?Sized, R>(spin::mutex::Mutex<T, R>);

/// `spin::relax::Spin`: how a `spin` lock waits.
#[verifier::external_type_specification]
#[verifier::external_body]
pub struct ExSpin(spin::relax::Spin);

/// `spin::MutexGuard`: the lock, held; it is given back when the guard is
/// dropped.
#[verifier::external_type_specification]
#[verifier::external_body]
#[verifier::reject_recursive_types(T)]
pub struct ExMutexGuard<'a, T: 'a + ?Sized>(spin::MutexGuard<'a, T>);

/// What a lock around a map of headers was made with: what the map held at
/// that time. This says nothing of what the lock guards later, which every
/// holder of the lock may change.
pub uninterp spec fn made_with(
    lock: spin::mutex::Mutex<http::HeaderMap<String>, spin::relax::Spin>,
) -> Map<Seq<char>, Seq<Seq<char>>>;

/// `Mutex::new`: a lock around `map`, which it holds as it is.
#[verifier::external_body]
fn mutex_new(map: http::HeaderMap<String>) -> (r: spin::Mutex<http::HeaderMap<String>>)
    ensures
        made_with(r) == header_values(map),
{
    spin::Mutex::new(map)
}

/// `Mutex::lock`: waits until the lock is free and takes it. What the lock
/// guards may have been changed by anyone who held it before.
#[verifier::external_body]
fn mutex_lock<'a>(lock: &'a spin::Mutex<http::HeaderMap<String>>) -> spin::MutexGuard<
    'a,
    http::HeaderMap<String>,
> {
    lock.lock()
}

/// `MutexGuard::deref_mut`: what the lock guards, for as long as the guard
/// is held.
#[verifier::external_body]
fn guarded<'g, 'a>(guard: &'g mut spin::MutexGuard<'a, http::HeaderMap<String>>) -> &'g mut http::HeaderMap<
    String,
> {
    &mut **guard
}

/// Headers that the fields of a query set while they are resolved side by
/// side. Each operation takes the lock for itself alone, so what one call
/// finds may have been changed by another since the call before.
pub struct SharedHeaders {
    lock: spin::Mutex<http::HeaderMap<String>>,
}

impl SharedHeaders {
    /// The headers that the shared headers were made with. What they hold
    /// at the time of a call is not known from this: any call in between,
    /// from any thread, may have changed it.
    pub closed spec fn started_as(&self) -> Map<Seq<char>, Seq<Seq<char>>> {
        made_with(self.lock)
    }

    /// Shared headers that start as `headers`.
    pub fn new(headers: Headers) -> (r: Self)
        ensures
            r.started_as() == headers@,
    {
        SharedHeaders { lock: mutex_new(headers.map) }
    }

    /// Whether a header `key` is set at the time of the call.
    pub fn contains(&self, key: &str) -> (r: bool)
        ensures
            canonical_name(key@) is None ==> !r,
    {
        let mut guard = mutex_lock(&self.lock);
        let map = guarded(&mut guard);
        map_contains_key(map, key)
    }

    /// Sets the header `name` to `value` alone, and returns the first of
    /// the values that it had at the time of the call.
    ///
    /// Fails if `name` is not the name of a header or the map of headers
    /// cannot grow.
    pub fn insert(&self, name: &str, value: String) -> (r: Result<Option<String>, HeaderError>)
        ensures
            r == Err::<Option<String>, HeaderError>(HeaderError::InvalidName) <==> canonical_name(
                name@,
            ) is None,
    {
        let mut guard = mutex_lock(&self.lock);
        let map = guarded(&mut guard);
        map_insert(map, name, value)
    }

    /// Adds `value` to the values of the header `name` and tells whether it
    /// had any at the time of the call.
    ///
    /// Fails if `name` is not the name of a header or the map of headers
    /// cannot grow.
    pub fn append(&self, name: &str, value: String) -> (r: Result<bool, HeaderError>)
        ensures
            r == Err::<bool, HeaderError>(HeaderError::InvalidName) <==> canonical_name(name@)
                is None,
    {
        let mut guard = mutex_lock(&self.lock);
        let map = guarded(&mut guard);
        map_append(map, name, value)
    }

    /// The values of the header `key` at the time of the call, from the
    /// first to the last.
    pub fn get_all(&self, key: &str) -> (r: Vec<String>)
        ensures
            canonical_name(key@) is None ==> r@.len() == 0,
    {
        let mut guard = mutex_lock(&self.lock);
        let map = guarded(&mut guard);
        let r = map_get_all(map, key);
        assert(r.deep_view().len() == r@.len());
        r
    }
}

} // verus!
