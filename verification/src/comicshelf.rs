//! The domain model handed upward to the web-facing layer: pages of comics
//! with their links and release dates.

use vstd::prelude::*;

use crate::date::Date;

verus! {

/// One page of a paged result set.
pub struct Page<T> {
    pub limit: i64,
    pub total: i64,
    pub count: i64,
    pub offset: i64,
    pub results: Vec<T>,
}

impl<T> Page<T> {
    pub fn new(limit: i64, total: i64, count: i64, offset: i64, results: Vec<T>) -> (r: Self)
        ensures
            r.limit == limit,
            r.total == total,
            r.count == count,
            r.offset == offset,
            r.results == results,
    {
        Page { limit, total, count, offset, results }
    }
}

/// A typed link attached to a comic.
pub struct Url {
    pub typ: String,
    pub url: String,
}

impl Url {
    pub fn new(typ: String, url: String) -> (r: Self)
        ensures
            r.typ == typ,
            r.url == url,
    {
        Url { typ, url }
    }
}

/// One comic issue as the web layer shows it.
pub struct Comic {
    pub id: i64,
    pub title: String,
    pub urls: Vec<Url>,
    pub thumbnail: String,
    pub format: String,
    pub issue_number: i64,
    pub on_sale_date: Date,
    pub attribution: String,
    pub attribution_link: String,
    pub series_id: i64,
}

impl Comic {
    pub fn new(
        id: i64,
        title: String,
        urls: Vec<Url>,
        thumbnail: String,
        format: String,
        issue_number: i64,
        on_sale_date: Date,
        attribution: String,
        attribution_link: String,
        series_id: i64,
    ) -> (r: Self)
        ensures
            r.id == id,
            r.title == title,
            r.urls == urls,
            r.thumbnail == thumbnail,
            r.format == format,
            r.issue_number == issue_number,
            r.on_sale_date == on_sale_date,
            r.attribution == attribution,
            r.attribution_link == attribution_link,
            r.series_id == series_id,
    {
        Comic {
            id,
            title,
            urls,
            thumbnail,
            format,
            issue_number,
            on_sale_date,
            attribution,
            attribution_link,
            series_id,
        }
    }
}

/// A series with the comics that belong to it.
pub struct Series {
    pub comics: Vec<Comic>,
    pub id: i64,
    pub title: String,
    pub urls: Vec<Url>,
    pub thumbnail: String,
}

} // verus!
