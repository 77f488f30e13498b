//! Request execution core of a Reddit API client: rate limiting from the
//! server's quota headers, OAuth token validity and renewal, classification
//! of the server's answers, the polling stream over a reverse-chronological
//! listing, and the request bodies and query strings that the endpoints take.
//!
//! Nothing here performs I/O or reads a clock: instants are milliseconds on a
//! monotonic clock chosen by the caller, who also carries the requests and
//! sleeps for the waits computed here.

mod auth;
mod basic;
mod forms;
mod ratelimit;
mod request;
mod sort;
mod stream;

pub use auth::{
    lemma_current_is_usable, lemma_expired_without_refresh, lemma_last_renewal_wins,
    lemma_renewal_settles, AuthError, Authenticator, TokenCheck, TokenState, RENEWAL_MARGIN_MS,
};
pub use basic::{
    b64_alphabet, b64_groups, b64_quad, b64_tail, base64, base64_encode, basic_authorization,
    spec_basic_authorization,
};
pub use forms::{
    bool_string, bool_text, chunk_count, chunk_ids, comment_tree_form, decimal, digit_char,
    flag_text, form_byte, form_byte_unchanged, form_bytes, form_encoded, form_pair, hex_upper, join_commas, link_fullname, message_form, more_children_forms,
    num_text, opt_pair, pairs_view, posts_url, recent_comments_url, signed_decimal, spec_chunks,
    spec_comment_tree_form, spec_link_fullname, spec_message_form, spec_more_children_form,
    spec_recent_query, spec_slot_valid, spec_sticky_form, spec_sub_url, spec_submit_self_form,
    spec_text_form, sticky_form, str_text, string_text, strs_view, submit_self_form, text_form,
    uri_params_from_map, url_with_query, UserListingOpts, CHILDREN_PER_REQUEST, TREE_LIMIT,
};
pub use ratelimit::{
    lemma_burst_waits_for_reset, lemma_steady_spreads_window, spec_reset_at, spec_wait,
    LimitMethod, RateLimiter, MILLIS_PER_SEC,
};
pub use request::{
    bearer, classify_response, finish_response, json_accepts, spec_is_success, spec_outcome,
    spec_user_agent, user_agent, ApiError, AuthStep, Connection,
};
pub use sort::{str_pair_view, str_pairs_view, Sort, SortTime};
pub use stream::{
    ascending, base36_digit, base36_digits, base36_value, fresh_batch, fullname_id,
    ids_ascending, lemma_accept_keeps_order, lemma_no_repeats, lemma_pop_keeps_order,
    lemma_three_batches, reversed, spec_backoff, spec_fullname_id, Comments, StreamEntry,
    StreamModel, StreamStep, BACKOFF_STEP_MS, BATCH_SIZE, MAX_FAILS,
};
