use regex::Regex;
use vstd::prelude::*;

verus! {

/// The destinations that the proxy opens a tunnel to. A pattern is a regular
/// expression, and is matched against the destination as the client wrote
/// it, port included.
pub const ALLOW_LIST: [&'static str; 68] = [
    r"localhost",  // local proxies
    r"audio-sp-.*\.pscdn\.co",  // audio
    r"audio-fa\.scdn\.co",  // audio
    r"audio4-fa\.scdn\.co",  // audio
    r"charts-images\.scdn\.co",  // charts images
    r"daily-mix\.scdn\.co",  // daily mix images
    r"dailymix-images\.scdn\.co",  // daily mix images
    r"heads-fa\.scdn\.co",  // audio (heads)
    r"i\.scdn\.co",  // cover art
    r"lineup-images\.scdn\.co",  // playlists lineup images
    r"merch-img\.scdn\.co",  // merch images
    r"misc\.scdn\.co",  // miscellaneous images
    r"mosaic\.scdn\.co",  // playlist mosaic images
    r"newjams-images\.scdn\.co",  // release radar images
    r"o\.scdn\.co",  // cover art
    r"pl\.scdn\.co",  // playlist images
    r"profile-images\.scdn\.co",  // artist profile images
    r"seeded-session-images\.scdn\.co",  // radio images
    r"t\.scdn\.co",  // background images
    r"thisis-images\.scdn\.co",  // "this is" playlists images
    r"video-fa\.scdn\.co",  // videos
    r"content\.production\.cdn\.art19\.com",  // podcasts
    r"rss\.art19\.com",  // podcasts
    r".*\.buzzsprout\.com",  // podcasts
    r"chtbl\.com",  // podcasts
    r"platform-lookaside\.fbsbx\.com",  // Facebook profile images
    r"genius\.com",  // lyrics (genius-spicetify)
    r".*\.googlevideo\.com",  // YouTube videos (Spicetify Reddit app)
    r".*\.gvt1\.com",  // Widevine download
    r"hwcdn\.libsyn\.com",  // podcasts
    r"traffic\.libsyn\.com",  // podcasts
    r"api.*-desktop\.musixmatch\.com",  // lyrics (genius-spicetify)
    r".*\.podbean\.com",  // podcasts
    r"cdn\.podigee\.com",  // podcasts
    r"dts\.podtrac\.com",  // podcasts
    r"www\.podtrac\.com",  // podcasts
    r"www\.reddit\.com",  // Reddit (Spicetify Reddit app)
    r"audio\.simplecast\.com",  // podcasts
    r"media\.simplecast\.com",  // podcasts
    r"ap\.spotify\.com",  // audio (access point)
    r".*\.ap\.spotify\.com",  // resolved access points
    r"api\.spotify\.com",  // client APIs
    r"api-partner\.spotify\.com",  // album/artist pages
    r"xpui\.app\.spotify\.com",  // user interface
    r"apresolve\.spotify\.com",  // access point resolving
    r"clienttoken\.spotify\.com",  // login
    r".*dealer\.spotify\.com",  // websocket connections
    r"image-upload.*\.spotify\.com",  // image uploading
    r"login.*\.spotify\.com",  // login
    r".*-spclient\.spotify\.com",  // client APIs
    r"spclient\.wg\.spotify\.com",  // client APIs, ads/tracking (blocked in blacklist)
    r"audio-fa\.spotifycdn\.com",  // audio
    r"seed-mix-image\.spotifycdn\.com",  // mix images
    r"download\.ted\.com",  // podcasts
    r"www\.youtube\.com",  // YouTube (Spicetify Reddit app)
    r"i\.ytimg\.com",  // YouTube images (Spicetify Reddit app)
    r"chrt\.fm",  // podcasts
    r"dcs.*\.megaphone\.fm",  // podcasts
    r"traffic\.megaphone\.fm",  // podcasts
    r"pdst\.fm",  // podcasts
    r"audio-ak-spotify-com\.akamaized\.net",  // audio
    r"audio4-ak-spotify-com\.akamaized\.net",  // audio
    r"heads4-ak-spotify-com\.akamaized\.net",  // audio (heads)
    r"audio4-ak\.spotify\.com\.edgesuite\.net",  // audio
    r"scontent.*\.fbcdn\.net",  // Facebook profile images
    r"audio-sp-.*\.spotifycdn\.net",  // audio
    r"dovetail\.prxu\.org",  // podcasts
    r"dovetail-cdn\.prxu\.org",  // podcasts
];

/// Destinations known to serve advertisements or tracking. The list is
/// consulted for the record only: it refuses nothing that the allow list
/// admits, and everything else is refused already.
pub const DENY_LIST: [&'static str; 3] = [
    r"https://spclient\.wg\.spotify\.com/ads/.*",  // ads
    r"https://spclient\.wg\.spotify\.com/ad-logic/.*",  // ads
    r"https://spclient\.wg\.spotify\.com/gabo-receiver-service/.*",  // tracking
];

/// `regex::Regex`, a compiled regular expression. Nothing inside it is
/// looked at: it is compiled, kept and asked for matches.
#[verifier::external_type_specification]
#[verifier::external_body]
pub struct ExRegex(regex::Regex);

/// `regex::Error`, what `Regex::new` says of a pattern that it refuses. It
/// is carried to the caller as it is.
#[verifier::external_type_specification]
#[verifier::external_body]
pub struct ExRegexError(regex::Error);

/// The pattern that a compiled expression stands for: of one that
/// `Regex::new` compiled, the text that it was compiled from.
pub uninterp spec fn pattern_of(re: &Regex) -> Seq<char>;

/// Whether the regular expression `pattern`, compiled as `Regex::new`
/// compiles it, matches somewhere in `haystack`: what `Regex::is_match`
/// returns.
pub uninterp spec fn pattern_matches(pattern: Seq<char>, haystack: Seq<char>) -> bool;

/// `Regex::new` compiles a pattern, or refuses it. The expression that it
/// returns stands for the pattern that it was given. Nothing is claimed of
/// which patterns it accepts.
pub assume_specification[ Regex::new ](re: &str) -> (compiled: Result<Regex, regex::Error>)
    ensures
        compiled matches Ok(regex) ==> pattern_of(&regex) == re@,
;

/// `Regex::is_match` says whether the pattern of the expression matches
/// anywhere in the haystack: a search, not a match of the whole text.
pub assume_specification[ Regex::is_match ](regex: &Regex, haystack: &str) -> (found: bool)
    ensures
        found == pattern_matches(pattern_of(regex), haystack@),
;

/// Whether one of `patterns` matches somewhere in `text`.
pub open spec fn matches_any(patterns: Seq<Seq<char>>, text: Seq<char>) -> bool {
    exists|i: int| 0 <= i < patterns.len() && pattern_matches(#[trigger] patterns[i], text)
}

/// A pattern that could not be compiled: its place in the list, and what the
/// compiler said of it.
#[derive(Debug)]
pub struct PatternError {
    pub index: usize,
    pub cause: regex::Error,
}

/// An ordered list of compiled patterns.
#[derive(Debug)]
pub struct PatternList {
    patterns: Vec<Regex>,
}

impl View for PatternList {
    type V = Seq<Seq<char>>;

    /// The patterns of the list, in order.
    closed spec fn view(&self) -> Seq<Seq<char>> {
        Seq::new(self.patterns@.len(), |i: int| pattern_of(&self.patterns@[i]))
    }
}

impl PatternList {
    /// The list without a pattern.
    pub fn new() -> (list: PatternList)
        ensures
            list@ == Seq::<Seq<char>>::empty(),
    {
        let list = PatternList { patterns: Vec::new() };
        assert(list@ =~= Seq::<Seq<char>>::empty());
        list
    }

    /// The number of patterns.
    pub fn len(&self) -> (n: usize)
        ensures
            n == self@.len(),
    {
        self.patterns.len()
    }

    /// The list with one more pattern at its end, given what compiling that
    /// pattern came to. A pattern that was refused ends the list's
    /// construction, and the error says at which place.
    pub fn with(self, compiled: Result<Regex, regex::Error>) -> (extended: Result<
        PatternList,
        PatternError,
    >)
        ensures
            match compiled {
                Ok(regex) => extended matches Ok(list) && list@ == self@.push(pattern_of(&regex)),
                Err(cause) => extended matches Err(e) && e.index == self@.len() && e.cause
                    == cause,
            },
    {
        match compiled {
            Ok(regex) => {
                let mut patterns = self.patterns;
                patterns.push(regex);
                let list = PatternList { patterns };
                assert(list@ =~= self@.push(pattern_of(&regex)));
                Ok(list)
            },
            Err(cause) => Err(PatternError { index: self.patterns.len(), cause }),
        }
    }

    /// Compiles `sources`, in order. The first pattern that is refused ends
    /// the work.
    pub fn compile(sources: &[&str]) -> (compiled: Result<PatternList, PatternError>)
        ensures
            compiled matches Ok(list) ==> list@ == sources.deep_view(),
            compiled matches Err(e) ==> e.index < sources.len(),
            sources.len() == 0 ==> compiled is Ok,
    {
        let mut list = PatternList::new();
        let mut i: usize = 0;
        while i < sources.len()
            invariant
                i <= sources.len(),
                list@ == sources.deep_view().take(i as int),
            decreases sources.len() - i,
        {
            match list.with(Regex::new(sources[i])) {
                Ok(extended) => {
                    list = extended;
                },
                Err(e) => {
                    return Err(e);
                },
            }
            assert(list@ =~= sources.deep_view().take(i + 1));
            i += 1;
        }
        assert(list@ =~= sources.deep_view());
        Ok(list)
    }

    /// Whether a pattern of the list matches somewhere in `text`.
    pub fn is_match(&self, text: &str) -> (found: bool)
        ensures
            found == matches_any(self@, text@),
    {
        let mut i: usize = 0;
        while i < self.patterns.len()
            invariant
                i <= self.patterns.len(),
                forall|k: int| 0 <= k < i ==> !pattern_matches(#[trigger] self@[k], text@),
            decreases self.patterns.len() - i,
        {
            if self.patterns[i].is_match(text) {
                assert(pattern_matches(self@[i as int], text@));
                return true;
            }
            i += 1;
        }
        false
    }
}

/// One of the two lists of a policy.
#[derive(Debug, Clone, Copy, PartialEq, Eq, Structural)]
pub enum ListKind {
    Allow,
    Deny,
}

/// Why a policy could not be built: a pattern of one of its lists was
/// refused.
#[derive(Debug)]
pub struct PolicyError {
    pub list: ListKind,
    pub error: PatternError,
}

/// The destination policy: the patterns of the destinations that are let
/// through, and the patterns of those that are known to be unwanted. It is
/// built once and never changes.
#[derive(Debug)]
pub struct Policy {
    allow: PatternList,
    deny: PatternList,
}

/// The decision, given what the two lists say of a destination: it is
/// blocked unless the allow list holds it. What the deny list says changes
/// nothing.
pub open spec fn blocked(in_allow_list: bool, in_deny_list: bool) -> bool {
    !in_allow_list
}

/// Decides on a destination from what the two lists say of it.
pub fn decide(in_allow_list: bool, in_deny_list: bool) -> (block: bool)
    ensures
        block == blocked(in_allow_list, in_deny_list),
{
    !in_allow_list
}

impl Policy {
    /// The patterns of the allow list, in order.
    pub closed spec fn allow_patterns(&self) -> Seq<Seq<char>> {
        self.allow@
    }

    /// The patterns of the deny list, in order.
    pub closed spec fn deny_patterns(&self) -> Seq<Seq<char>> {
        self.deny@
    }

    /// Whether the allow list holds `destination`.
    pub open spec fn allows(&self, destination: Seq<char>) -> bool {
        matches_any(self.allow_patterns(), destination)
    }

    /// Whether the deny list holds `destination`.
    pub open spec fn denies(&self, destination: Seq<char>) -> bool {
        matches_any(self.deny_patterns(), destination)
    }

    /// Whether the policy refuses `destination`.
    pub open spec fn blocks(&self, destination: Seq<char>) -> bool {
        blocked(self.allows(destination), self.denies(destination))
    }

    /// Builds a policy from the patterns of its two lists. The allow list is
    /// compiled first, and the first pattern that is refused ends the work.
    pub fn new(allow: &[&str], deny: &[&str]) -> (built: Result<Policy, PolicyError>)
        ensures
            built matches Ok(policy) ==> policy.allow_patterns() == allow.deep_view()
                && policy.deny_patterns() == deny.deep_view(),
            built matches Err(e) ==> e.error.index < (match e.list {
                ListKind::Allow => allow.len(),
                ListKind::Deny => deny.len(),
            }),
            allow.len() == 0 && deny.len() == 0 ==> built is Ok,
    {
        let allow = match PatternList::compile(allow) {
            Ok(list) => list,
            Err(error) => {
                return Err(PolicyError { list: ListKind::Allow, error });
            },
        };
        let deny = match PatternList::compile(deny) {
            Ok(list) => list,
            Err(error) => {
                return Err(PolicyError { list: ListKind::Deny, error });
            },
        };
        Ok(Policy { allow, deny })
    }

    /// Builds the policy of the two lists that the library comes with.
    pub fn builtin() -> (built: Result<Policy, PolicyError>)
        ensures
            built matches Ok(policy) ==> policy.allow_patterns() == ALLOW_LIST.deep_view()
                && policy.deny_patterns() == DENY_LIST.deep_view(),
            built matches Err(e) ==> e.error.index < (match e.list {
                ListKind::Allow => ALLOW_LIST.len(),
                ListKind::Deny => DENY_LIST.len(),
            }),
    {
        let allow = ALLOW_LIST;
        let deny = DENY_LIST;
        let allow_sources = allow.as_slice();
        let deny_sources = deny.as_slice();
        assert(allow_sources.deep_view() =~= ALLOW_LIST.deep_view());
        assert(deny_sources.deep_view() =~= DENY_LIST.deep_view());
        Policy::new(allow_sources, deny_sources)
    }

    /// Whether the allow list holds `destination`.
    pub fn in_allow_list(&self, destination: &str) -> (found: bool)
        ensures
            found == self.allows(destination@),
    {
        self.allow.is_match(destination)
    }

    /// Whether the deny list holds `destination`.
    pub fn in_deny_list(&self, destination: &str) -> (found: bool)
        ensures
            found == self.denies(destination@),
    {
        self.deny.is_match(destination)
    }
}

/// Whether `policy` refuses the destination `url`, taken as the client wrote
/// it. Both lists are consulted, and the allow list alone decides.
pub fn should_block(policy: &Policy, url: &str) -> (block: bool)
    ensures
        block == policy.blocks(url@),
        block == !matches_any(policy.allow_patterns(), url@),
{
    let is_in_denylist = policy.in_deny_list(url);
    let is_in_allowlist = policy.in_allow_list(url);
    decide(is_in_allowlist, is_in_denylist)
}

/// The deny list is inert: two policies with the same allow list refuse the
/// same destinations, whatever their deny lists hold.
pub proof fn lemma_deny_list_is_inert(policy: &Policy, other: &Policy, destination: Seq<char>)
    requires
        policy.allow_patterns() == other.allow_patterns(),
    ensures
        policy.blocks(destination) == other.blocks(destination),
        policy.blocks(destination) == !matches_any(policy.allow_patterns(), destination),
{
}

} // verus!
