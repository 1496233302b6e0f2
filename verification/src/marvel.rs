//! The upstream catalog client: the typed model of the catalog's
//! responses, the conversion into the domain model, and the composed
//! middleware chain that fetches the weekly releases.

pub mod auth;
pub mod etag;
pub mod template;

use vstd::prelude::*;
use vstd::string::*;

use crate::comicshelf;
use crate::date::{push_date, spec_date_str, spec_week_range, week_range, Weekday};
use crate::errors::Error;
use crate::middleware::uri::{UriMiddleware, UriMiddlewareLayer};
use crate::service::{HttpService, Request};
use crate::text::{
    parse_digits, push_char, spec_is_digit, spec_parse_nat,
};
use self::etag::{CacheMiddleware, CacheMiddlewareLayer, EtagCache, WebClient};

verus! {

/// A typed date attached to a comic: a kind tag and a datetime stamp.
pub struct Date {
    pub typ: String,
    pub date: String,
}

/// A named resource reference.
pub struct Item {
    pub name: String,
    pub resource_uri: String,
}

/// A typed link.
pub struct Url {
    pub typ: String,
    pub url: String,
}

/// A thumbnail image: its path and file extension.
pub struct Thumbnail {
    pub path: String,
    pub extension: String,
}

/// One comic issue as the catalog reports it.
pub struct Comic {
    pub id: i64,
    pub title: String,
    pub resource_uri: String,
    pub urls: Vec<Url>,
    pub modified: String,
    pub thumbnail: Thumbnail,
    pub format: String,
    pub issue_number: i64,
    pub series: Item,
    pub dates: Vec<Date>,
}

/// The paging envelope around a result collection.
pub struct DataContainer<T> {
    pub offset: i64,
    pub limit: i64,
    pub total: i64,
    pub count: i64,
    pub results: Vec<T>,
}

/// The catalog's typed response wrapper.
pub struct DataWrapper<T> {
    pub code: i64,
    pub status: String,
    pub copyright: String,
    pub attribution_text: String,
    pub attribution_html: String,
    pub etag: String,
    pub data: DataContainer<T>,
}

/// ASCII case folding of one character, as a code point.
pub open spec fn spec_fold_char(c: char) -> u32 {
    let u = c as u32;
    if 0x41 <= u <= 0x5a {
        (u + 32) as u32
    } else {
        u
    }
}

/// ASCII-case-insensitive equality of two character sequences.
pub open spec fn spec_eq_ignore_case(a: Seq<char>, b: Seq<char>) -> bool {
    a.len() == b.len() && forall|i: int|
        0 <= i < a.len() ==> spec_fold_char(#[trigger] a[i]) == spec_fold_char(b[i])
}

fn fold_char(c: char) -> (r: u32)
    ensures
        r == spec_fold_char(c),
{
    let u = c as u32;
    if 0x41 <= u && u <= 0x5a {
        u + 32
    } else {
        u
    }
}

/// Compares two strings ignoring ASCII case.
fn eq_ignore_case(a: &str, b: &str) -> (r: bool)
    ensures
        r == spec_eq_ignore_case(a@, b@),
{
    let n = a.unicode_len();
    if n != b.unicode_len() {
        return false;
    }
    let mut i: usize = 0;
    while i < n
        invariant
            i <= n,
            n == a@.len(),
            n == b@.len(),
            forall|j: int| 0 <= j < i ==> spec_fold_char(#[trigger] a@[j]) == spec_fold_char(b@[j]),
        decreases n - i,
    {
        if fold_char(a.get_char(i)) != fold_char(b.get_char(i)) {
            return false;
        }
        i = i + 1;
    }
    true
}

fn digit_at(s: &str, j: usize, len: usize) -> (r: bool)
    requires
        len == s@.len(),
    ensures
        r == (j < s@.len() && spec_is_digit(s@[j as int])),
{
    if j < len {
        let c = s.get_char(j);
        '0' <= c && c <= '9'
    } else {
        false
    }
}

/// The first position at or after `i` where a `/` is followed by a digit.
pub open spec fn spec_find_slash_digits(s: Seq<char>, i: int) -> Option<int>
    decreases s.len() - i,
{
    if i + 1 >= s.len() {
        None
    } else if s[i] == '/' && spec_is_digit(s[i + 1]) {
        Some(i)
    } else {
        spec_find_slash_digits(s, i + 1)
    }
}

/// The end of the digit run that starts at `i`: the first position at or
/// after `i` that does not hold a digit.
pub open spec fn spec_run_end(s: Seq<char>, i: int) -> int
    decreases s.len() - i,
{
    if i < s.len() && spec_is_digit(s[i]) {
        spec_run_end(s, i + 1)
    } else {
        i
    }
}

proof fn lemma_run_end_bounds(s: Seq<char>, i: int)
    requires
        0 <= i <= s.len(),
    ensures
        i <= spec_run_end(s, i) <= s.len(),
        forall|j: int| i <= j < spec_run_end(s, i) ==> spec_is_digit(#[trigger] s[j]),
    decreases s.len() - i,
{
    if i < s.len() && spec_is_digit(s[i]) {
        lemma_run_end_bounds(s, i + 1);
    }
}

proof fn lemma_find_slash_digits_props(s: Seq<char>, i: int)
    requires
        0 <= i,
    ensures
        spec_find_slash_digits(s, i) matches Some(p) ==> i <= p && p + 1 < s.len() && s[p] == '/'
            && spec_is_digit(s[p + 1]),
    decreases s.len() - i,
{
    if i + 1 < s.len() && !(s[i] == '/' && spec_is_digit(s[i + 1])) {
        lemma_find_slash_digits_props(s, i + 1);
    }
}

fn find_slash_digits(s: &str) -> (r: Option<usize>)
    ensures
        match r {
            Some(p) => spec_find_slash_digits(s@, 0) == Some(p as int),
            None => spec_find_slash_digits(s@, 0) is None,
        },
{
    let len = s.unicode_len();
    let mut i: usize = 0;
    while i + 1 < len
        invariant
            len == s@.len(),
            i == 0 || i < len,
            spec_find_slash_digits(s@, 0) == spec_find_slash_digits(s@, i as int),
        decreases len - i,
    {
        let c = s.get_char(i);
        let next = s.get_char(i + 1);
        if c == '/' && ('0' <= next && next <= '9') {
            assert(spec_is_digit(s@[i + 1]));
            return Some(i);
        }
        assert(!(s@[i as int] == '/' && spec_is_digit(s@[i + 1]))) by {
            if s@[i as int] == '/' {
                assert(!('0' <= next && next <= '9'));
            }
        }
        i = i + 1;
    }
    assert(spec_find_slash_digits(s@, i as int) is None);
    None
}

/// The digit run a series id is read from: the digits that follow the
/// first `/` immediately followed by a digit.
pub open spec fn spec_series_digits(s: Seq<char>) -> Option<Seq<char>> {
    match spec_find_slash_digits(s, 0) {
        None => None,
        Some(p) => Some(s.subrange(p + 1, spec_run_end(s, p + 1))),
    }
}

/// Reads the series id out of a resource reference: the value of the
/// first `/`-introduced digit run.  `None` when the reference holds no
/// such run or the value exceeds `i64::MAX`.
pub fn series_id_from_uri(s: &str) -> (r: Option<i64>)
    ensures
        match r {
            Some(v) => spec_series_digits(s@) matches Some(ds) && v == spec_parse_nat(ds),
            None => spec_series_digits(s@) is None || (spec_series_digits(s@) matches Some(ds)
                && spec_parse_nat(ds) > i64::MAX),
        },
{
    let len = s.unicode_len();
    let p = match find_slash_digits(s) {
        Some(p) => p,
        None => {
            return None;
        },
    };
    proof {
        lemma_find_slash_digits_props(s@, 0);
    }
    let mut j: usize = p + 1;
    while digit_at(s, j, len)
        invariant
            p + 1 <= j <= len,
            len == s@.len(),
            spec_run_end(s@, p + 1) == spec_run_end(s@, j as int),
            forall|t: int| p + 1 <= t < j ==> spec_is_digit(#[trigger] s@[t]),
        decreases len - j,
    {
        j = j + 1;
    }
    assert(spec_run_end(s@, j as int) == j);
    match parse_digits(s, p + 1, j) {
        Some(v) => {
            proof {
                assert(s@.subrange(p + 1, j as int) == spec_series_digits(s@)->Some_0);
            }
            Some(v as i64)
        },
        None => None,
    }
}

/// The calendar date at the front of a catalog datetime stamp
/// (`YYYY-MM-DDT...`), when the stamp carries a well-formed one.  Only the
/// date prefix is interpreted; the time of day and the offset are not.
pub open spec fn spec_datetime_date(s: Seq<char>) -> Option<crate::date::Date> {
    if s.len() >= 11 && spec_is_digit(s[0]) && spec_is_digit(s[1]) && spec_is_digit(s[2])
        && spec_is_digit(s[3]) && s[4] == '-' && spec_is_digit(s[5]) && spec_is_digit(s[6]) && s[7]
        == '-' && spec_is_digit(s[8]) && spec_is_digit(s[9]) && s[10] == 'T' {
        let d = crate::date::Date {
            year: spec_parse_nat(s.subrange(0, 4)) as i32,
            month: spec_parse_nat(s.subrange(5, 7)) as u8,
            day: spec_parse_nat(s.subrange(8, 10)) as u8,
        };
        if d.wf() {
            Some(d)
        } else {
            None
        }
    } else {
        None
    }
}

fn is_digit_char(c: char) -> (r: bool)
    ensures
        r == spec_is_digit(c),
{
    '0' <= c && c <= '9'
}

/// Parses the calendar date at the front of a catalog datetime stamp.
pub fn parse_datetime_date(s: &str) -> (r: Option<crate::date::Date>)
    ensures
        r == spec_datetime_date(s@),
{
    let len = s.unicode_len();
    if len < 11 {
        return None;
    }
    if !(is_digit_char(s.get_char(0)) && is_digit_char(s.get_char(1)) && is_digit_char(
        s.get_char(2),
    ) && is_digit_char(s.get_char(3)) && s.get_char(4) == '-' && is_digit_char(s.get_char(5))
        && is_digit_char(s.get_char(6)) && s.get_char(7) == '-' && is_digit_char(s.get_char(8))
        && is_digit_char(s.get_char(9)) && s.get_char(10) == 'T') {
        return None;
    }
    proof {
        assert forall|i: int| 0 <= i < 4 implies spec_is_digit(#[trigger] s@[i]) by {
            assert(i == 0 || i == 1 || i == 2 || i == 3);
        }
        assert forall|i: int| 5 <= i < 7 implies spec_is_digit(#[trigger] s@[i]) by {
            assert(i == 5 || i == 6);
        }
        assert forall|i: int| 8 <= i < 10 implies spec_is_digit(#[trigger] s@[i]) by {
            assert(i == 8 || i == 9);
        }
        crate::text::lemma_parse_nat_small(s@.subrange(0, 4));
        crate::text::lemma_parse_nat_small(s@.subrange(5, 7));
        crate::text::lemma_parse_nat_small(s@.subrange(8, 10));
    }
    let year64 = match parse_digits(s, 0, 4) {
        Some(v) => v,
        None => {
            return None;
        },
    };
    let month64 = match parse_digits(s, 5, 7) {
        Some(v) => v,
        None => {
            return None;
        },
    };
    let day64 = match parse_digits(s, 8, 10) {
        Some(v) => v,
        None => {
            return None;
        },
    };
    let d = crate::date::Date { year: year64 as i32, month: month64 as u8, day: day64 as u8 };
    if 1 <= d.year && 1 <= d.month && d.month <= 12 && 1 <= d.day && d.day <= crate::date::days_in_month(
        d.year,
        d.month,
    ) {
        Some(d)
    } else {
        None
    }
}

/// The on-sale date of a comic: the last date entry tagged `onsaledate`
/// decides; a comic without one keeps the fallback date.  `None` when a
/// tagged entry carries a stamp without a well-formed date.
pub open spec fn spec_onsale_date(dates: Seq<Date>, cur: crate::date::Date) -> Option<
    crate::date::Date,
>
    decreases dates.len(),
{
    if dates.len() == 0 {
        Some(cur)
    } else if spec_eq_ignore_case(dates[0].typ@, "onsaledate"@) {
        match spec_datetime_date(dates[0].date@) {
            None => None,
            Some(d) => spec_onsale_date(dates.skip(1), d),
        }
    } else {
        spec_onsale_date(dates.skip(1), cur)
    }
}

proof fn lemma_onsale_date_wf(dates: Seq<Date>, cur: crate::date::Date)
    requires
        cur.wf(),
    ensures
        spec_onsale_date(dates, cur) matches Some(d) ==> d.wf(),
    decreases dates.len(),
{
    if dates.len() > 0 {
        if spec_eq_ignore_case(dates[0].typ@, "onsaledate"@) {
            match spec_datetime_date(dates[0].date@) {
                None => {},
                Some(d) => {
                    lemma_onsale_date_wf(dates.skip(1), d);
                },
            }
        } else {
            lemma_onsale_date_wf(dates.skip(1), cur);
        }
    }
}

/// Scans the date entries of a comic for its on-sale date.
fn onsale_date(dates: &Vec<Date>, fallback: &crate::date::Date) -> (r: Option<crate::date::Date>)
    requires
        fallback.wf(),
    ensures
        r == spec_onsale_date(dates@, *fallback),
        r matches Some(d) ==> d.wf(),
{
    let mut cur = *fallback;
    let mut i: usize = 0;
    assert(dates@.skip(0) =~= dates@);
    while i < dates.len()
        invariant
            i <= dates@.len(),
            cur.wf(),
            spec_onsale_date(dates@, *fallback) == spec_onsale_date(dates@.skip(i as int), cur),
        decreases dates@.len() - i,
    {
        proof {
            assert(dates@.skip(i as int)[0] == dates@[i as int]);
            assert(dates@.skip(i as int).skip(1) =~= dates@.skip(i + 1));
        }
        if eq_ignore_case(dates[i].typ.as_str(), "onsaledate") {
            match parse_datetime_date(dates[i].date.as_str()) {
                Some(d) => {
                    cur = d;
                },
                None => {
                    return None;
                },
            }
        }
        i = i + 1;
    }
    proof {
        assert(dates@.skip(dates@.len() as int) =~= Seq::<Date>::empty());
        lemma_onsale_date_wf(dates@, *fallback);
    }
    Some(cur)
}

/// Whether a catalog comic can be converted: its tagged dates parse and
/// its series reference carries a readable id.
pub open spec fn spec_comic_convertible(c: Comic, fallback: crate::date::Date) -> bool {
    &&& spec_onsale_date(c.dates@, fallback) is Some
    &&& spec_series_digits(c.series.resource_uri@) matches Some(ds) && spec_parse_nat(ds)
        <= i64::MAX
}

/// How one catalog comic maps to one domain comic.
pub open spec fn spec_comic_converted(
    c: Comic,
    fallback: crate::date::Date,
    attribution: Seq<char>,
    r: comicshelf::Comic,
) -> bool {
    &&& r.id == c.id
    &&& r.title@ == c.title@
    &&& r.urls@.len() == c.urls@.len()
    &&& forall|j: int|
        0 <= j < c.urls@.len() ==> (#[trigger] r.urls@[j]).typ@ == c.urls@[j].typ@
            && r.urls@[j].url@ == c.urls@[j].url@
    &&& r.thumbnail@ == c.thumbnail.path@ + "/portrait_uncanny."@ + c.thumbnail.extension@
    &&& r.format@ == c.format@
    &&& r.issue_number == c.issue_number
    &&& Some(r.on_sale_date) == spec_onsale_date(c.dates@, fallback)
    &&& r.attribution@ == attribution
    &&& r.attribution_link@ == "https://marvel.com"@
    &&& spec_series_digits(c.series.resource_uri@) matches Some(ds) && r.series_id
        == spec_parse_nat(ds)
}

fn convert_comic(c: &Comic, fallback: &crate::date::Date, attribution: &String) -> (r: Option<
    comicshelf::Comic,
>)
    requires
        fallback.wf(),
    ensures
        match r {
            Some(cc) => spec_comic_convertible(*c, *fallback) && spec_comic_converted(
                *c,
                *fallback,
                attribution@,
                cc,
            ),
            None => !spec_comic_convertible(*c, *fallback),
        },
{
    let on_sale = match onsale_date(&c.dates, fallback) {
        Some(d) => d,
        None => {
            return None;
        },
    };
    let sid = match series_id_from_uri(c.series.resource_uri.as_str()) {
        Some(v) => v,
        None => {
            return None;
        },
    };
    let mut urls: Vec<comicshelf::Url> = Vec::new();
    let mut j: usize = 0;
    while j < c.urls.len()
        invariant
            j <= c.urls@.len(),
            urls@.len() == j,
            forall|t: int|
                0 <= t < j ==> (#[trigger] urls@[t]).typ@ == c.urls@[t].typ@ && urls@[t].url@
                    == c.urls@[t].url@,
        decreases c.urls@.len() - j,
    {
        urls.push(comicshelf::Url::new(c.urls[j].typ.clone(), c.urls[j].url.clone()));
        j = j + 1;
    }
    let mut thumbnail = c.thumbnail.path.clone();
    thumbnail.append("/portrait_uncanny.");
    thumbnail.append(c.thumbnail.extension.as_str());
    Some(
        comicshelf::Comic::new(
            c.id,
            c.title.clone(),
            urls,
            thumbnail,
            c.format.clone(),
            c.issue_number,
            on_sale,
            attribution.clone(),
            String::from_str("https://marvel.com"),
            sid,
        ),
    )
}

impl DataWrapper<Comic> {
    /// Converts the catalog's typed response into a domain page: every
    /// comic element-wise, the paging numbers verbatim.  `DecodeFailure`
    /// exactly when some comic cannot be converted.
    pub fn to_page(&self, fallback: &crate::date::Date) -> (r: Result<
        comicshelf::Page<comicshelf::Comic>,
        Error,
    >)
        requires
            fallback.wf(),
        ensures
            match r {
                Ok(p) => {
                    &&& p.limit == self.data.limit
                    &&& p.total == self.data.total
                    &&& p.count == self.data.count
                    &&& p.offset == self.data.offset
                    &&& p.results@.len() == self.data.results@.len()
                    &&& forall|i: int|
                        0 <= i < self.data.results@.len() ==> spec_comic_converted(
                            self.data.results@[i],
                            *fallback,
                            self.attribution_text@,
                            #[trigger] p.results@[i],
                        )
                },
                Err(e) => e == Error::DecodeFailure && exists|i: int|
                    0 <= i < self.data.results@.len() && !spec_comic_convertible(
                        #[trigger] self.data.results@[i],
                        *fallback,
                    ),
            },
    {
        let mut comics: Vec<comicshelf::Comic> = Vec::new();
        let mut i: usize = 0;
        while i < self.data.results.len()
            invariant
                fallback.wf(),
                i <= self.data.results@.len(),
                comics@.len() == i,
                forall|t: int|
                    0 <= t < i ==> spec_comic_converted(
                        self.data.results@[t],
                        *fallback,
                        self.attribution_text@,
                        #[trigger] comics@[t],
                    ),
            decreases self.data.results@.len() - i,
        {
            match convert_comic(&self.data.results[i], fallback, &self.attribution_text) {
                Some(cc) => comics.push(cc),
                None => {
                    return Err(Error::DecodeFailure);
                },
            }
            i = i + 1;
        }
        Ok(
            comicshelf::Page::new(
                self.data.limit,
                self.data.total,
                self.data.count,
                self.data.offset,
                comics,
            ),
        )
    }
}

/// The query of the weekly-releases endpoint for one date window.
pub open spec fn spec_weekly_query(start: crate::date::Date, end: crate::date::Date) -> Seq<char> {
    "format=comic&formatType=comic&noVariants=true&dateRange="@ + spec_date_str(start) + seq![',']
        + spec_date_str(end) + "&hasDigitalIssue=true&orderBy=issueNumber&limit=100"@
}

/// Builds the logical weekly-releases request for one date window.
pub fn build_weekly_request(start: &crate::date::Date, end: &crate::date::Date) -> (r: Request)
    requires
        start.wf(),
        end.wf(),
    ensures
        r@.path == "/comics"@,
        r@.query == spec_weekly_query(*start, *end),
        r@.scheme is None,
        r@.host is None,
        r@.if_none_match is None,
{
    let mut q = String::new();
    q.append("format=comic&formatType=comic&noVariants=true&dateRange=");
    push_date(&mut q, start);
    push_char(&mut q, ',');
    push_date(&mut q, end);
    q.append("&hasDigitalIssue=true&orderBy=issueNumber&limit=100");
    assert(q@ =~= spec_weekly_query(*start, *end));
    Request::new(String::from_str("/comics"), q)
}

/// The catalog client over a composed service.
pub struct Marvel<S> {
    pub svc: S,
}

impl<S> Marvel<S> {
    pub fn new(svc: S) -> (r: Self)
        ensures
            r.svc == svc,
    {
        Marvel { svc }
    }

    /// The release-week window of a reference date: the most recently
    /// completed Sunday-to-Saturday week three calendar months earlier.
    pub fn week_range(time: &crate::date::Date) -> (r: Result<
        (crate::date::Date, crate::date::Date),
        Error,
    >)
        requires
            time.wf(),
        ensures
            match r {
                Ok((start, end)) => {
                    &&& spec_week_range(*time) == Some((start, end))
                    &&& start.wf()
                    &&& end.wf()
                    &&& crate::date::spec_weekday(start) == Weekday::Sun
                    &&& crate::date::spec_day_index(end) == crate::date::spec_day_index(start) + 6
                },
                Err(e) => e == Error::DateArithmetic && spec_week_range(*time) is None,
            },
    {
        week_range(time)
    }
}

impl<S: WebClient> Marvel<S> {
    /// Fetches the envelope of the releases of the week of `date`: the
    /// window is computed, the logical request built, and the composed
    /// service - cache, normalizer, signer, transport - carries it out.
    /// `DateArithmetic` exactly when no window exists for `date`; the
    /// composed service answers for everything past that point.
    pub fn weekly_comics(&mut self, date: &crate::date::Date) -> (r: Result<
        template::DataWrapper,
        Error,
    >)
        requires
            date.wf(),
            old(self).svc.inv(),
        ensures
            final(self).svc.inv(),
            spec_week_range(*date) is None ==> (r matches Err(e) && e == Error::DateArithmetic)
                && *final(self) == *old(self),
    {
        let (start, end) = match Self::week_range(date) {
            Ok(w) => w,
            Err(e) => {
                return Err(e);
            },
        };
        let req = build_weekly_request(&start, &end);
        self.svc.call(req)
    }
}

/// Composes the full pipeline in its fixed order - cache outermost, then
/// URI normalization, then signing, then the transport - around an empty
/// cache and the given credential.
pub fn new_marvel_service<T: HttpService>(transport: T, pub_key: String, priv_key: String) -> (r:
    Marvel<CacheMiddleware<UriMiddleware<auth::Middleware<T>>>>)
    ensures
        r.svc.inv(),
        r.svc.cache@ == Map::<Seq<char>, etag::EntryModel>::empty(),
        r.svc.inner.host@ == "gateway.marvel.com"@,
        r.svc.inner.scheme@ == "https"@,
        r.svc.inner.path_prefix@ == "/v1/public"@,
        r.svc.inner.inner.pub_key == pub_key,
        r.svc.inner.inner.priv_key == priv_key,
{
    let signer = auth::MiddlewareLayer::new(pub_key, priv_key).layer(transport);
    let normalizer = UriMiddlewareLayer::new(
        String::from_str("gateway.marvel.com"),
        String::from_str("https"),
        String::from_str("/v1/public"),
    ).layer(signer);
    let cached = CacheMiddlewareLayer::new(EtagCache::new()).layer(normalizer);
    Marvel::new(cached)
}

} // verus!
