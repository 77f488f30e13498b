use reddit_core::{
    chunk_ids, link_fullname, message_form, more_children_forms, posts_url, recent_comments_url,
    sticky_form, submit_self_form, text_form, uri_params_from_map, ApiError, Sort, SortTime,
    UserListingOpts, bool_string,
};

#[test]
fn sort_params() {
    assert_eq!(Sort::Hot.param(), vec![("sort", "hot")]);
    assert_eq!(Sort::Rising.param(), vec![("sort", "rising")]);
    assert_eq!(Sort::Top(SortTime::Week).param(), vec![("sort", "top"), ("t", "week")]);
    assert_eq!(Sort::Controversial(SortTime::All).param(), vec![("sort", "controversial"), ("t", "all")]);
    assert_eq!(SortTime::Hour.param(), ("t", "hour"));
}

#[test]
fn comment_and_message_bodies() {
    assert_eq!(text_form("hello world & more", "t1_abc"), "text=hello+world+%26+more&thing_id=t1_abc");
    assert_eq!(message_form("bob", "hi", "x=y"), "to=bob&subject=hi&text=x%3Dy");
    assert_eq!(
        submit_self_form("rust", "Title", "Body", false),
        "sr=rust&kind=self&title=Title&text=Body&sendreplies=false"
    );
    assert_eq!(bool_string(true), "true");
}

#[test]
fn sticky_slots() {
    assert_eq!(sticky_form(true, Some(2), "t3_x"), Ok("state=1&num=2&id=t3_x".to_string()));
    assert_eq!(sticky_form(false, None, "t3_x"), Ok("state=0&id=t3_x".to_string()));
    assert_eq!(
        sticky_form(true, Some(3), "t3_x"),
        Err(ApiError::BadRequest {
            request: "Sticky's are limited to slots 1 and 2".to_string(),
            response: "not sent".to_string(),
        })
    );
}

#[test]
fn ids_are_chunked_by_five() {
    let ids: Vec<String> = (1..=12).map(|i| format!("c{}", i)).collect();
    assert_eq!(chunk_ids(&ids), vec!["c1,c2,c3,c4,c5", "c6,c7,c8,c9,c10", "c11,c12"]);
    let five: Vec<String> = (1..=5).map(|i| format!("c{}", i)).collect();
    assert_eq!(chunk_ids(&five), vec!["c1,c2,c3,c4,c5"]);
    assert_eq!(chunk_ids(&Vec::new()), vec![""]);
}

#[test]
fn more_children_bodies() {
    assert_eq!(link_fullname("abc"), "t3_abc");
    assert_eq!(link_fullname("t3_abc"), "t3_abc");
    assert_eq!(link_fullname("t3"), "t3_t3");
    let ids: Vec<String> = (1..=6).map(|i| format!("c{}", i)).collect();
    let forms = more_children_forms("abc", "m1", &ids);
    assert_eq!(
        forms,
        vec![
            "children=c1%2Cc2%2Cc3%2Cc4%2Cc5&link_id=t3_abc&id=m1&api_type=json",
            "children=c6&link_id=t3_abc&id=m1&api_type=json",
        ]
    );
}

#[test]
fn user_listing_options() {
    let mut o = UserListingOpts::new();
    assert_eq!(o.to_form(), "");
    o.limit(50).sort("new").include_categories(true);
    o.typ("comments");
    assert_eq!(o.to_form(), "sort=new&type=comments&include_categories=true&limit=50");
    let d = UserListingOpts::default();
    assert!(d.context.is_none());
}

#[test]
fn listing_urls() {
    assert_eq!(
        recent_comments_url("rust", Some(500), Some("t1_x")),
        Ok("https://www.reddit.com/r/rust/comments.json?limit=500&before=t1_x".to_string())
    );
    assert_eq!(
        recent_comments_url("all", None, None),
        Ok("https://www.reddit.com/r/all/comments.json?".to_string())
    );
    assert_eq!(
        posts_url("rust", Sort::Top(SortTime::Day)),
        Ok("https://www.reddit.com/r/rust/.json?sort=top&t=day".to_string())
    );
    assert_eq!(
        uri_params_from_map("not a url", &vec![("a".to_string(), "b".to_string())]),
        Err(ApiError::InvalidUrl { url: "not a url".to_string() })
    );
}

#[test]
fn comment_tree_body() {
    assert_eq!(reddit_core::comment_tree_form(), "limit=2147483648&depth=2147483648");
}

#[test]
fn numbers_and_bytes_are_encoded() {
    assert_eq!(
        recent_comments_url("rust", Some(-5), None),
        Ok("https://www.reddit.com/r/rust/comments.json?limit=-5".to_string())
    );
    assert_eq!(
        recent_comments_url("rust", Some(i32::MIN), None),
        Ok("https://www.reddit.com/r/rust/comments.json?limit=-2147483648".to_string())
    );
    let mut o = UserListingOpts::new();
    o.count(u32::MAX).context(0);
    assert_eq!(o.to_form(), "context=0&count=4294967295");
    assert_eq!(text_form("*-._~ é/", "AZaz09"), "text=*-._%7E+%C3%A9%2F&thing_id=AZaz09");
    assert_eq!(text_form("", ""), "text=&thing_id=");
}
