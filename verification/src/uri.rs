use vstd::prelude::*;

verus! {

// ---------------------------------------------------------------------------
// Character-sequence helpers shared by the key and path logic.
// ---------------------------------------------------------------------------

/// Index of the last occurrence of `c` in `s`, if any.
pub open spec fn spec_rfind(s: Seq<char>, c: char) -> Option<int>
    decreases s.len(),
{
    if s.len() == 0 {
        None::<int>
    } else if s[s.len() - 1] == c {
        Some((s.len() - 1) as int)
    } else {
        spec_rfind(s.drop_last(), c)
    }
}

pub proof fn lemma_rfind(s: Seq<char>, c: char)
    ensures
        match spec_rfind(s, c) {
            Some(i) => 0 <= i < s.len() && s[i] == c && (forall|j: int|
                i < j < s.len() ==> s[j] != c),
            None => forall|j: int| 0 <= j < s.len() ==> s[j] != c,
        },
    decreases s.len(),
{
    if s.len() == 0 {
    } else if s[s.len() - 1] == c {
    } else {
        lemma_rfind(s.drop_last(), c);
        assert(forall|j: int| 0 <= j < s.len() - 1 ==> s.drop_last()[j] == s[j]);
    }
}

pub proof fn lemma_rfind_found(s: Seq<char>, c: char, i: int)
    requires
        0 <= i < s.len(),
        s[i] == c,
        forall|j: int| i < j < s.len() ==> s[j] != c,
    ensures
        spec_rfind(s, c) == Some(i),
    decreases s.len(),
{
    if i == s.len() - 1 {
    } else {
        lemma_rfind_found(s.drop_last(), c, i);
    }
}

pub proof fn lemma_rfind_none(s: Seq<char>, c: char)
    requires
        forall|j: int| 0 <= j < s.len() ==> s[j] != c,
    ensures
        spec_rfind(s, c) is None,
    decreases s.len(),
{
    if s.len() > 0 {
        lemma_rfind_none(s.drop_last(), c);
    }
}

/// Find the last occurrence of `c`, scanning characters from the end.
pub fn rfind_char(s: &str, c: char) -> (r: Option<usize>)
    ensures
        match r {
            Some(i) => spec_rfind(s@, c) == Some(i as int),
            None => spec_rfind(s@, c) is None,
        },
{
    let n: usize = s.unicode_len();
    let mut i: usize = n;
    while i > 0
        invariant
            i <= n,
            n == s@.len(),
            forall|j: int| i <= j < n ==> s@[j] != c,
        decreases i,
    {
        i = i - 1;
        if s.get_char(i) == c {
            proof {
                lemma_rfind_found(s@, c, i as int);
            }
            return Some(i);
        }
    }
    proof {
        lemma_rfind_none(s@, c);
    }
    None
}

pub open spec fn ends_with_slash(s: Seq<char>) -> bool {
    s.len() > 0 && s[s.len() - 1] == '/'
}

/// `s` with one trailing '/' removed, if present.
pub open spec fn strip_trailing_slash(s: Seq<char>) -> Seq<char> {
    if ends_with_slash(s) {
        s.drop_last()
    } else {
        s
    }
}

// ---------------------------------------------------------------------------
// Keys: the path-like strings that name objects within a bucket.
// ---------------------------------------------------------------------------

/// Empty key or trailing '/': the key names directory intent.
pub open spec fn spec_is_explicit_directory(s: Seq<char>) -> bool {
    s.len() == 0 || ends_with_slash(s)
}

pub open spec fn spec_to_explicit_directory(s: Seq<char>) -> Seq<char> {
    if spec_is_explicit_directory(s) {
        s
    } else {
        s.push('/')
    }
}

/// A path component appended below a key: a '/' separates them unless the
/// key is empty or already ends in one.
pub open spec fn spec_key_child(key: Seq<char>, component: Seq<char>) -> Seq<char> {
    if key.len() > 0 && key[key.len() - 1] != '/' {
        key + seq!['/'] + component
    } else {
        key + component
    }
}

/// The portion after the final '/', or the whole key when it has no '/'.
/// An empty key, or one ending in '/', has no filename.
pub open spec fn spec_filename(s: Seq<char>) -> Option<Seq<char>> {
    match spec_rfind(s, '/') {
        None => if s.len() > 0 {
            Some(s)
        } else {
            None::<Seq<char>>
        },
        Some(i) => if i == s.len() - 1 {
            None::<Seq<char>>
        } else {
            Some(s.subrange(i + 1, s.len() as int))
        },
    }
}

/// The key truncated just after its final '/': its directory portion.
pub open spec fn spec_basename(s: Seq<char>) -> Seq<char> {
    match spec_rfind(s, '/') {
        None => Seq::<char>::empty(),
        Some(i) => s.subrange(0, i + 1),
    }
}

/// The final path segment, with any trailing '/' stripped; a key of a
/// single segment yields that segment itself.
pub open spec fn spec_as_directory_component(s: Seq<char>) -> Seq<char> {
    let t = strip_trailing_slash(s);
    match spec_rfind(t, '/') {
        None => t,
        Some(i) => t.subrange(i + 1, t.len() as int),
    }
}

pub proof fn lemma_basename_prefix(s: Seq<char>)
    ensures
        spec_basename(s).is_prefix_of(s),
{
    lemma_rfind(s, '/');
    match spec_rfind(s, '/') {
        None => {
            assert(spec_basename(s) =~= s.subrange(0, 0));
        },
        Some(i) => {
            assert(spec_basename(s) =~= s.subrange(0, i + 1));
        },
    }
}

pub proof fn lemma_prefix_of_common(a: Seq<char>, b: Seq<char>, k: Seq<char>)
    requires
        a.is_prefix_of(k),
        b.is_prefix_of(k),
        a.len() <= b.len(),
    ensures
        a.is_prefix_of(b),
{
    assert(a =~= b.subrange(0, a.len() as int));
}

/// The substring after the final '/', or the whole key if it has no '/';
/// `None` when nothing follows the final '/'.
pub fn filename(key: &str) -> (r: Option<&str>)
    ensures
        match r {
            Some(f) => spec_filename(key@) == Some(f@),
            None => spec_filename(key@) is None,
        },
{
    let n: usize = key.unicode_len();
    match rfind_char(key, '/') {
        None => if n > 0 {
            Some(key)
        } else {
            None
        },
        Some(i) => {
            proof {
                lemma_rfind(key@, '/');
            }
            if i + 1 == n {
                None
            } else {
                Some(key.substring_char(i + 1, n))
            }
        },
    }
}

/// An immutable object key: opaque to the store, but carrying '/'-delimited
/// structure that the client synthesizes directories from.
#[derive(Debug)]
pub struct Key {
    s: String,
}

impl View for Key {
    type V = Seq<char>;

    closed spec fn view(&self) -> Seq<char> {
        self.s@
    }
}

impl Clone for Key {
    fn clone(&self) -> (r: Self)
        ensures
            r == *self,
            r@ == self@,
    {
        Key { s: self.s.clone() }
    }
}

impl Key {
    pub fn new(key: String) -> (r: Key)
        ensures
            r@ == key@,
    {
        Key { s: key }
    }

    pub fn as_str(&self) -> (r: &str)
        ensures
            r@ == self@,
    {
        self.s.as_str()
    }

    pub fn is_empty(&self) -> (r: bool)
        ensures
            r == (self@.len() == 0),
    {
        self.s.as_str().unicode_len() == 0
    }

    pub fn filename(&self) -> (r: Option<&str>)
        ensures
            match r {
                Some(f) => spec_filename(self@) == Some(f@),
                None => spec_filename(self@) is None,
            },
    {
        filename(self.s.as_str())
    }

    pub fn is_explicitly_directory(&self) -> (r: bool)
        ensures
            r == spec_is_explicit_directory(self@),
    {
        let s = self.s.as_str();
        let n: usize = s.unicode_len();
        n == 0 || s.get_char(n - 1) == '/'
    }

    /// Append '/' unless the key already denotes a directory.
    pub fn to_explicit_directory(&self) -> (r: Key)
        ensures
            r@ == spec_to_explicit_directory(self@),
            spec_is_explicit_directory(r@),
    {
        proof {
            reveal_strlit("/");
        }
        if self.is_explicitly_directory() {
            Key { s: self.s.clone() }
        } else {
            let mut s = self.s.clone();
            s.append("/");
            proof {
                assert(s@ =~= self@.push('/'));
            }
            Key { s }
        }
    }

    pub fn push(&mut self, component: &str)
        ensures
            final(self)@ == old(self)@ + component@,
    {
        self.s.append(component);
    }

    pub fn basename(&self) -> (r: &str)
        ensures
            r@ == spec_basename(self@),
    {
        let s = self.s.as_str();
        let n: usize = s.unicode_len();
        match rfind_char(s, '/') {
            None => s.substring_char(0, 0),
            Some(i) => {
                proof {
                    lemma_rfind(s@, '/');
                }
                s.substring_char(0, i + 1)
            },
        }
    }

    pub fn basename_key(&self) -> (r: Key)
        ensures
            r@ == spec_basename(self@),
    {
        Key { s: self.basename().to_owned() }
    }

    pub fn as_directory_component(&self) -> (r: &str)
        ensures
            r@ == spec_as_directory_component(self@),
    {
        let s = self.s.as_str();
        let n: usize = s.unicode_len();
        let without_slash: &str = if n > 0 && s.get_char(n - 1) == '/' {
            s.substring_char(0, n - 1)
        } else {
            s
        };
        let m: usize = without_slash.unicode_len();
        match rfind_char(without_slash, '/') {
            None => without_slash,
            Some(i) => {
                proof {
                    lemma_rfind(without_slash@, '/');
                }
                without_slash.substring_char(i + 1, m)
            },
        }
    }
}

/// The law that an explicit directory stays one: making a key explicitly a
/// directory yields a directory, and doing it twice changes nothing more.
pub proof fn lemma_to_explicit_directory_idempotent(s: Seq<char>)
    ensures
        spec_is_explicit_directory(spec_to_explicit_directory(s)),
        spec_to_explicit_directory(spec_to_explicit_directory(s)) == spec_to_explicit_directory(s),
{
}

// ---------------------------------------------------------------------------
// Character-exact string comparisons.
// ---------------------------------------------------------------------------

pub fn str_eq(a: &str, b: &str) -> (r: bool)
    ensures
        r == (a@ == b@),
{
    let na: usize = a.unicode_len();
    let nb: usize = b.unicode_len();
    if na != nb {
        return false;
    }
    let mut i: usize = 0;
    while i < na
        invariant
            i <= na,
            na == a@.len(),
            nb == b@.len(),
            na == nb,
            forall|j: int| 0 <= j < i ==> a@[j] == b@[j],
        decreases na - i,
    {
        if a.get_char(i) != b.get_char(i) {
            return false;
        }
        i = i + 1;
    }
    proof {
        assert(a@ =~= b@);
    }
    true
}

pub fn starts_with_str(s: &str, prefix: &str) -> (r: bool)
    ensures
        r == prefix@.is_prefix_of(s@),
{
    let n: usize = s.unicode_len();
    let p: usize = prefix.unicode_len();
    if p > n {
        return false;
    }
    let mut i: usize = 0;
    while i < p
        invariant
            i <= p,
            p <= n,
            n == s@.len(),
            p == prefix@.len(),
            forall|j: int| 0 <= j < i ==> s@[j] == prefix@[j],
        decreases p - i,
    {
        if s.get_char(i) != prefix.get_char(i) {
            proof {
                assert(prefix@.is_prefix_of(s@) ==> prefix@ == s@.subrange(
                    0,
                    prefix@.len() as int,
                ));
            }
            return false;
        }
        i = i + 1;
    }
    proof {
        assert(prefix@ =~= s@.subrange(0, p as int));
    }
    true
}

// ---------------------------------------------------------------------------
// Bucket naming rules: a pragmatic subset of the store's published rules.
// ---------------------------------------------------------------------------

pub open spec fn spec_bucket_valid_starting_char(c: char) -> bool {
    ('a' as u32 <= c as u32 && c as u32 <= 'z' as u32) || ('0' as u32 <= c as u32 && c as u32
        <= '9' as u32)
}

pub open spec fn spec_bucket_valid_char(c: char) -> bool {
    spec_bucket_valid_starting_char(c) || c == '.' || c == '-'
}

pub fn bucket_valid_starting_char(c: char) -> (r: bool)
    ensures
        r == spec_bucket_valid_starting_char(c),
{
    let u = c as u32;
    ('a' as u32 <= u && u <= 'z' as u32) || ('0' as u32 <= u && u <= '9' as u32)
}

pub fn bucket_valid_char(c: char) -> (r: bool)
    ensures
        r == spec_bucket_valid_char(c),
{
    bucket_valid_starting_char(c) || c == '.' || c == '-'
}

pub open spec fn spec_bucket_name_valid(s: Seq<char>) -> bool {
    s.len() >= 3 && (forall|i: int| 0 <= i < s.len() ==> spec_bucket_valid_char(s[i]))
        && spec_bucket_valid_starting_char(s[0]) && spec_bucket_valid_starting_char(
        s[s.len() - 1],
    )
}

/// The diagnostic a rejected bucket name earns, chosen in the order the
/// checks run: length, then character set, then first and last character.
pub open spec fn spec_bucket_error_message(s: Seq<char>) -> Seq<char> {
    if s.len() < 3 {
        "too short (must be at least 3 characters)"@
    } else if exists|i: int| 0 <= i < s.len() && !spec_bucket_valid_char(s[i]) {
        "invalid character (valid: [a-z0-9.-])"@
    } else {
        "needs begin and end with a number or character ([a-z0-9])"@
    }
}

pub fn validate_bucket_name(bucket: &str) -> (r: Result<(), &'static str>)
    ensures
        r is Ok <==> spec_bucket_name_valid(bucket@),
        r matches Err(m) ==> m@ == spec_bucket_error_message(bucket@),
{
    let n: usize = bucket.unicode_len();
    if n < 3 {
        return Err("too short (must be at least 3 characters)");
    }
    let mut i: usize = 0;
    while i < n
        invariant
            i <= n,
            3 <= n,
            n == bucket@.len(),
            forall|j: int| 0 <= j < i ==> spec_bucket_valid_char(bucket@[j]),
        decreases n - i,
    {
        if !bucket_valid_char(bucket.get_char(i)) {
            proof {
                assert(exists|j: int|
                    0 <= j < bucket@.len() && !spec_bucket_valid_char(bucket@[j])) by {
                    assert(!spec_bucket_valid_char(bucket@[i as int]));
                }
            }
            return Err("invalid character (valid: [a-z0-9.-])");
        }
        i = i + 1;
    }
    if !bucket_valid_starting_char(bucket.get_char(0)) || !bucket_valid_starting_char(
        bucket.get_char(n - 1),
    ) {
        return Err("needs begin and end with a number or character ([a-z0-9])");
    }
    Ok(())
}

// ---------------------------------------------------------------------------
// Remote addresses: scheme://bucket/key.
// ---------------------------------------------------------------------------

#[derive(Debug)]
pub enum UriError {
    ParseError,
    InvalidScheme,
    MissingBucket,
    InvalidUrlComponents(&'static str),
    InvalidBucketName(&'static str),
}

#[derive(Debug)]
pub struct Uri {
    pub bucket: String,
    pub key: Key,
}

impl Clone for Uri {
    fn clone(&self) -> (r: Self)
        ensures
            r == *self,
            r.bucket@ == self.bucket@,
            r.key@ == self.key@,
    {
        Uri { bucket: self.bucket.clone(), key: self.key.clone() }
    }
}

/// The portions of an address that the parser inspects, as plain values.
pub struct UrlParts {
    pub scheme: String,
    pub host: Option<String>,
    pub path: String,
    pub username: String,
    pub has_query: bool,
    pub has_password: bool,
    pub has_fragment: bool,
}

pub ghost struct UrlPartsView {
    pub scheme: Seq<char>,
    pub host: Option<Seq<char>>,
    pub path: Seq<char>,
    pub username: Seq<char>,
    pub has_query: bool,
    pub has_password: bool,
    pub has_fragment: bool,
}

impl View for UrlParts {
    type V = UrlPartsView;

    open spec fn view(&self) -> UrlPartsView {
        UrlPartsView {
            scheme: self.scheme@,
            host: match self.host {
                Some(h) => Some(h@),
                None => None,
            },
            path: self.path@,
            username: self.username@,
            has_query: self.has_query,
            has_password: self.has_password,
            has_fragment: self.has_fragment,
        }
    }
}

/// What splitting an address yields; the split depends on the text alone.
pub uninterp spec fn parsed_url(s: Seq<char>) -> Option<UrlPartsView>;

/// Relies on url::Url::parse and the accessors scheme, host, path, username,
/// query, password and fragment: they split an address into its parts, and
/// the outcome depends on the input text alone.
#[verifier::external_body]
fn parse_url(s: &str) -> (r: Option<UrlParts>)
    ensures
        (r is Some) == (parsed_url(s@) is Some),
        r matches Some(p) ==> parsed_url(s@) == Some(p@),
{
    let u = match url::Url::parse(s) {
        Ok(u) => u,
        Err(_) => return None,
    };
    Some(UrlParts {
        scheme: u.scheme().to_string(),
        host: u.host().map(|h| h.to_string()),
        path: u.path().to_string(),
        username: u.username().to_string(),
        has_query: u.query().is_some(),
        has_password: u.password().is_some(),
        has_fragment: u.fragment().is_some(),
    })
}

/// The first malformed component among query, username, password, fragment,
/// in the order the checks run; the value is the diagnostic's component name.
pub open spec fn parts_component_error(p: UrlPartsView) -> Option<Seq<char>> {
    if p.has_query {
        Some("query string"@)
    } else if p.username.len() > 0 {
        Some("username"@)
    } else if p.has_password {
        Some("password"@)
    } else if p.has_fragment {
        Some("fragment"@)
    } else {
        None::<Seq<char>>
    }
}

/// The key is the path with every leading '/' stripped, so that a key
/// never begins with one.
pub open spec fn spec_key_of_path(path: Seq<char>) -> Seq<char>
    decreases path.len(),
{
    if path.len() > 0 && path[0] == '/' {
        spec_key_of_path(path.skip(1))
    } else {
        path
    }
}

pub proof fn lemma_key_of_path_no_leading_slash(path: Seq<char>)
    ensures
        spec_key_of_path(path).len() > 0 ==> spec_key_of_path(path)[0] != '/',
    decreases path.len(),
{
    if path.len() > 0 && path[0] == '/' {
        lemma_key_of_path_no_leading_slash(path.skip(1));
    }
}

proof fn lemma_key_of_path_skip(s: Seq<char>, k: int)
    requires
        0 <= k <= s.len(),
        forall|j: int| 0 <= j < k ==> s[j] == '/',
        k == s.len() || s[k] != '/',
    ensures
        spec_key_of_path(s) == s.skip(k),
    decreases k,
{
    if k == 0 {
        assert(s.skip(0) =~= s);
    } else {
        let t = s.skip(1);
        assert(forall|j: int| 0 <= j < t.len() ==> t[j] == s[j + 1]);
        lemma_key_of_path_skip(t, k - 1);
        assert(t.skip(k - 1) =~= s.skip(k));
    }
}

/// What assembling a Uri from split parts must yield: the first failed check
/// decides the error, in the order scheme, components, bucket, bucket name.
pub open spec fn spec_uri_outcome(p: UrlPartsView, r: Result<Uri, UriError>) -> bool {
    if p.scheme != "s3"@ {
        r matches Err(e) && e is InvalidScheme
    } else {
        match parts_component_error(p) {
            Some(m) => r matches Err(e) && e matches UriError::InvalidUrlComponents(msg) && msg@
                == m,
            None => match p.host {
                None => r matches Err(e) && e is MissingBucket,
                Some(h) => if !spec_bucket_name_valid(h) {
                    r matches Err(e) && e matches UriError::InvalidBucketName(msg) && msg@
                        == spec_bucket_error_message(h)
                } else {
                    r matches Ok(u) && u.bucket@ == h && u.key@ == spec_key_of_path(p.path) && (
                    u.key@.len() > 0 ==> u.key@[0] != '/')
                },
            },
        }
    }
}

/// Assemble a Uri out of already-split address parts, validating each.
pub fn uri_from_parts(p: &UrlParts) -> (r: Result<Uri, UriError>)
    ensures
        spec_uri_outcome(p@, r),
{
    if !str_eq(p.scheme.as_str(), "s3") {
        return Err(UriError::InvalidScheme);
    }
    if p.has_query {
        return Err(UriError::InvalidUrlComponents("query string"));
    }
    if p.username.as_str().unicode_len() > 0 {
        return Err(UriError::InvalidUrlComponents("username"));
    }
    if p.has_password {
        return Err(UriError::InvalidUrlComponents("password"));
    }
    if p.has_fragment {
        return Err(UriError::InvalidUrlComponents("fragment"));
    }
    let bucket: String = match &p.host {
        None => {
            return Err(UriError::MissingBucket);
        },
        Some(h) => h.clone(),
    };
    match validate_bucket_name(bucket.as_str()) {
        Err(m) => {
            return Err(UriError::InvalidBucketName(m));
        },
        Ok(_) => {},
    }
    let path = p.path.as_str();
    let n: usize = path.unicode_len();
    let mut start: usize = 0;
    while start < n && path.get_char(start) == '/'
        invariant
            start <= n,
            n == path@.len(),
            forall|j: int| 0 <= j < start ==> path@[j] == '/',
        decreases n - start,
    {
        start = start + 1;
    }
    let key: String = path.substring_char(start, n).to_owned();
    proof {
        lemma_key_of_path_skip(path@, start as int);
        lemma_key_of_path_no_leading_slash(path@);
        assert(key@ =~= path@.skip(start as int));
    }
    Ok(Uri { bucket, key: Key::new(key) })
}

impl Uri {
    pub fn new(bucket: String, key: Key) -> (r: Uri)
        ensures
            r.bucket@ == bucket@,
            r.key@ == key@,
    {
        Uri { bucket, key }
    }

    /// Parse a textual address, accepting only the store's own scheme and
    /// rejecting query strings, credentials and fragments.
    pub fn from_str(s: &str) -> (r: Result<Uri, UriError>)
        ensures
            parsed_url(s@) is None ==> (r matches Err(e) && e is ParseError),
            parsed_url(s@) matches Some(p) ==> spec_uri_outcome(p, r),
    {
        match parse_url(s) {
            None => Err(UriError::ParseError),
            Some(p) => uri_from_parts(&p),
        }
    }

    pub fn filename(&self) -> (r: Option<&str>)
        ensures
            match r {
                Some(f) => spec_filename(self.key@) == Some(f@),
                None => spec_filename(self.key@) is None,
            },
    {
        self.key.filename()
    }

    /// The address of a child directory: the component appended to the key
    /// below a separator, made explicitly a directory.
    pub fn child_directory(&self, path_component: &str) -> (r: Uri)
        ensures
            r.bucket@ == self.bucket@,
            r.key@ == spec_to_explicit_directory(spec_key_child(self.key@, path_component@)),
    {
        proof {
            reveal_strlit("/");
        }
        let key_str = self.key.as_str();
        let n: usize = key_str.unicode_len();
        let mut child_key = self.key.clone();
        if n > 0 && key_str.get_char(n - 1) != '/' {
            child_key.push("/");
        }
        child_key.push(path_component);
        proof {
            assert(child_key@ =~= spec_key_child(self.key@, path_component@));
        }
        Uri { bucket: self.bucket.clone(), key: child_key.to_explicit_directory() }
    }

    /// Renders as scheme://bucket/key.
    pub fn to_url_string(&self) -> (r: String)
        ensures
            r@ == "s3://"@ + self.bucket@ + "/"@ + self.key@,
    {
        let mut s: String = "s3://".to_owned();
        s.append(self.bucket.as_str());
        s.append("/");
        s.append(self.key.as_str());
        s
    }
}

} // verus!
