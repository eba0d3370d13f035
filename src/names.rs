//! The byte strings that the cache rules look for: directive names, header
//! field names and request methods, each spelled out byte by byte.
use vstd::prelude::*;

verus! {

// Cache-Control directives.

/// `max-age`
pub const MAX_AGE: [u8; 7] = [109, 97, 120, 45, 97, 103, 101];

/// `s-maxage`
pub const S_MAXAGE: [u8; 8] = [115, 45, 109, 97, 120, 97, 103, 101];

/// `no-store`
pub const NO_STORE: [u8; 8] = [110, 111, 45, 115, 116, 111, 114, 101];

/// `no-cache`
pub const NO_CACHE: [u8; 8] = [110, 111, 45, 99, 97, 99, 104, 101];

/// `private`
pub const PRIVATE: [u8; 7] = [112, 114, 105, 118, 97, 116, 101];

/// `public`
pub const PUBLIC: [u8; 6] = [112, 117, 98, 108, 105, 99];

/// `must-revalidate`
pub const MUST_REVALIDATE: [u8; 15] = [109, 117, 115, 116, 45, 114, 101, 118, 97, 108, 105, 100, 97, 116, 101];

/// `proxy-revalidate`
pub const PROXY_REVALIDATE: [u8; 16] = [112, 114, 111, 120, 121, 45, 114, 101, 118, 97, 108, 105, 100, 97, 116, 101];

/// `immutable`
pub const IMMUTABLE: [u8; 9] = [105, 109, 109, 117, 116, 97, 98, 108, 101];

/// `max-stale`
pub const MAX_STALE: [u8; 9] = [109, 97, 120, 45, 115, 116, 97, 108, 101];

/// `min-fresh`
pub const MIN_FRESH: [u8; 9] = [109, 105, 110, 45, 102, 114, 101, 115, 104];

/// `pre-check`
pub const PRE_CHECK: [u8; 9] = [112, 114, 101, 45, 99, 104, 101, 99, 107];

/// `post-check`
pub const POST_CHECK: [u8; 10] = [112, 111, 115, 116, 45, 99, 104, 101, 99, 107];

// Header field names, in lowercase.

/// `cache-control`
pub const CACHE_CONTROL: [u8; 13] = [99, 97, 99, 104, 101, 45, 99, 111, 110, 116, 114, 111, 108];

/// `pragma`
pub const PRAGMA: [u8; 6] = [112, 114, 97, 103, 109, 97];

/// `expires`
pub const EXPIRES: [u8; 7] = [101, 120, 112, 105, 114, 101, 115];

/// `date`
pub const DATE: [u8; 4] = [100, 97, 116, 101];

/// `age`
pub const AGE: [u8; 3] = [97, 103, 101];

/// `last-modified`
pub const LAST_MODIFIED: [u8; 13] = [108, 97, 115, 116, 45, 109, 111, 100, 105, 102, 105, 101, 100];

/// `etag`
pub const ETAG: [u8; 4] = [101, 116, 97, 103];

/// `vary`
pub const VARY: [u8; 4] = [118, 97, 114, 121];

/// `set-cookie`
pub const SET_COOKIE: [u8; 10] = [115, 101, 116, 45, 99, 111, 111, 107, 105, 101];

/// `warning`
pub const WARNING: [u8; 7] = [119, 97, 114, 110, 105, 110, 103];

/// `host`
pub const HOST: [u8; 4] = [104, 111, 115, 116];

/// `authorization`
pub const AUTHORIZATION: [u8; 13] = [97, 117, 116, 104, 111, 114, 105, 122, 97, 116, 105, 111, 110];

/// `if-none-match`
pub const IF_NONE_MATCH: [u8; 13] = [105, 102, 45, 110, 111, 110, 101, 45, 109, 97, 116, 99, 104];

/// `if-modified-since`
pub const IF_MODIFIED_SINCE: [u8; 17] = [105, 102, 45, 109, 111, 100, 105, 102, 105, 101, 100, 45, 115, 105, 110, 99, 101];

/// `if-range`
pub const IF_RANGE: [u8; 8] = [105, 102, 45, 114, 97, 110, 103, 101];

/// `connection`
pub const CONNECTION: [u8; 10] = [99, 111, 110, 110, 101, 99, 116, 105, 111, 110];

/// `keep-alive`
pub const KEEP_ALIVE: [u8; 10] = [107, 101, 101, 112, 45, 97, 108, 105, 118, 101];

/// `proxy-authentication`
pub const PROXY_AUTHENTICATION: [u8; 20] = [112, 114, 111, 120, 121, 45, 97, 117, 116, 104, 101, 110, 116, 105, 99, 97, 116, 105, 111, 110];

/// `proxy-authorization`
pub const PROXY_AUTHORIZATION: [u8; 19] = [112, 114, 111, 120, 121, 45, 97, 117, 116, 104, 111, 114, 105, 122, 97, 116, 105, 111, 110];

/// `te`
pub const TE: [u8; 2] = [116, 101];

/// `trailer`
pub const TRAILER: [u8; 7] = [116, 114, 97, 105, 108, 101, 114];

/// `transfer-encoding`
pub const TRANSFER_ENCODING: [u8; 17] = [116, 114, 97, 110, 115, 102, 101, 114, 45, 101, 110, 99, 111, 100, 105, 110, 103];

/// `upgrade`
pub const UPGRADE: [u8; 7] = [117, 112, 103, 114, 97, 100, 101];

/// `content-length`
pub const CONTENT_LENGTH: [u8; 14] = [99, 111, 110, 116, 101, 110, 116, 45, 108, 101, 110, 103, 116, 104];

/// `content-encoding`
pub const CONTENT_ENCODING: [u8; 16] = [99, 111, 110, 116, 101, 110, 116, 45, 101, 110, 99, 111, 100, 105, 110, 103];

/// `content-range`
pub const CONTENT_RANGE: [u8; 13] = [99, 111, 110, 116, 101, 110, 116, 45, 114, 97, 110, 103, 101];

// Request methods.

/// `GET`
pub const GET: [u8; 3] = [71, 69, 84];

/// `HEAD`
pub const HEAD: [u8; 4] = [72, 69, 65, 68];

/// `POST`
pub const POST: [u8; 4] = [80, 79, 83, 84];

/// `OPTIONS`
pub const OPTIONS: [u8; 7] = [79, 80, 84, 73, 79, 78, 83];

/// `TRACE`
pub const TRACE: [u8; 5] = [84, 82, 65, 67, 69];

} // verus!
