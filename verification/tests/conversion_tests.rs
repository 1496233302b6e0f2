use comicshelf::comicshelf::Page;
use comicshelf::date::Date as CalendarDate;
use comicshelf::errors::Error;
use comicshelf::marvel::{
    parse_datetime_date, series_id_from_uri, Comic, DataContainer, DataWrapper, Date, Item,
    Thumbnail, Url,
};

fn sample_comic() -> Comic {
    Comic {
        id: 123,
        title: "A Comic".to_owned(),
        resource_uri: "http://gateway.marvel.com/v1/public/comics/123".to_owned(),
        urls: vec![Url { typ: "detail".to_owned(), url: "http://marvel.com/c/123".to_owned() }],
        modified: "2024-04-01T09:00:00-0400".to_owned(),
        thumbnail: Thumbnail { path: "http://i.example/img".to_owned(), extension: "jpg".to_owned() },
        format: "Comic".to_owned(),
        issue_number: 7,
        series: Item {
            name: "A Series".to_owned(),
            resource_uri: "http://gateway.marvel.com/v1/public/series/23012".to_owned(),
        },
        dates: vec![
            Date { typ: "focDate".to_owned(), date: "2024-04-15T00:00:00-0400".to_owned() },
            Date { typ: "onsaleDate".to_owned(), date: "2024-05-01T00:00:00-0400".to_owned() },
        ],
    }
}

fn wrapper_of(results: Vec<Comic>) -> DataWrapper<Comic> {
    DataWrapper {
        code: 200,
        status: "Ok".to_owned(),
        copyright: "(c) Marvel".to_owned(),
        attribution_text: "Data provided by Marvel.".to_owned(),
        attribution_html: "<a>Marvel</a>".to_owned(),
        etag: "V1".to_owned(),
        data: DataContainer { offset: 0, limit: 100, total: 1, count: 1, results },
    }
}

fn fallback() -> CalendarDate {
    CalendarDate { year: 2024, month: 5, day: 15 }
}

#[test]
fn a_page_carries_the_numbers_and_converted_comics() {
    let page: Page<_> = wrapper_of(vec![sample_comic()]).to_page(&fallback()).unwrap();
    assert_eq!(page.limit, 100);
    assert_eq!(page.total, 1);
    assert_eq!(page.count, 1);
    assert_eq!(page.offset, 0);
    assert_eq!(page.results.len(), 1);
    let comic = &page.results[0];
    assert_eq!(comic.id, 123);
    assert_eq!(comic.title, "A Comic");
    assert_eq!(comic.thumbnail, "http://i.example/img/portrait_uncanny.jpg");
    assert_eq!(comic.format, "Comic");
    assert_eq!(comic.issue_number, 7);
    assert_eq!(comic.on_sale_date, CalendarDate { year: 2024, month: 5, day: 1 });
    assert_eq!(comic.attribution, "Data provided by Marvel.");
    assert_eq!(comic.attribution_link, "https://marvel.com");
    assert_eq!(comic.series_id, 23012);
    assert_eq!(comic.urls.len(), 1);
    assert_eq!(comic.urls[0].typ, "detail");
    assert_eq!(comic.urls[0].url, "http://marvel.com/c/123");
}

#[test]
fn the_on_sale_tag_is_matched_case_insensitively_and_the_last_wins() {
    let mut comic = sample_comic();
    comic.dates = vec![
        Date { typ: "ONSALEDATE".to_owned(), date: "2024-01-01T00:00:00-0400".to_owned() },
        Date { typ: "onsaledate".to_owned(), date: "2024-02-02T00:00:00-0400".to_owned() },
    ];
    let page = wrapper_of(vec![comic]).to_page(&fallback()).unwrap();
    assert_eq!(page.results[0].on_sale_date, CalendarDate { year: 2024, month: 2, day: 2 });
}

#[test]
fn a_comic_without_an_on_sale_date_keeps_the_fallback() {
    let mut comic = sample_comic();
    comic.dates = vec![];
    let page = wrapper_of(vec![comic]).to_page(&fallback()).unwrap();
    assert_eq!(page.results[0].on_sale_date, fallback());
}

#[test]
fn an_unreadable_on_sale_stamp_is_a_decode_failure() {
    let mut comic = sample_comic();
    comic.dates = vec![Date { typ: "onsaleDate".to_owned(), date: "soon".to_owned() }];
    match wrapper_of(vec![comic]).to_page(&fallback()) {
        Err(e) => assert_eq!(e, Error::DecodeFailure),
        Ok(_) => panic!("a bad stamp must be refused"),
    }
}

#[test]
fn a_series_reference_without_an_id_is_a_decode_failure() {
    let mut comic = sample_comic();
    comic.series.resource_uri = "series".to_owned();
    match wrapper_of(vec![comic]).to_page(&fallback()) {
        Err(e) => assert_eq!(e, Error::DecodeFailure),
        Ok(_) => panic!("a reference without digits must be refused"),
    }
}

#[test]
fn series_ids_are_read_from_the_first_digit_segment() {
    assert_eq!(series_id_from_uri("http://gateway.marvel.com/v1/public/series/23012"), Some(23012));
    assert_eq!(series_id_from_uri("/series/9/comics"), Some(9));
    assert_eq!(series_id_from_uri("/v1/public/series"), None);
    assert_eq!(series_id_from_uri(""), None);
    assert_eq!(series_id_from_uri("/99999999999999999999"), None);
}

#[test]
fn datetime_stamps_yield_their_calendar_date() {
    assert_eq!(
        parse_datetime_date("2024-05-15T00:00:00-0400"),
        Some(CalendarDate { year: 2024, month: 5, day: 15 })
    );
    assert_eq!(parse_datetime_date("2024-13-01T00:00:00-0400"), None);
    assert_eq!(parse_datetime_date("2023-02-29T00:00:00-0400"), None);
    assert_eq!(parse_datetime_date("2024-05-15"), None);
    assert_eq!(parse_datetime_date("yesterday"), None);
}
