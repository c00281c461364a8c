//! Request-scoped memory and collection layer for a request-processing
//! server: arena-backed byte views, an append-only segmented list whose
//! records never move once written, a header table built on that list, and
//! a buffer chain describing one logical output payload.
#![allow(non_camel_case_types)]

pub mod buf;
pub mod error;
pub mod headers;
pub mod list;
pub mod ngx_str;
pub mod pool;

pub use buf::{BufStorage, ngx_buf_t, ngx_chain_t};
pub use error::NgxError;
pub use headers::{Header, ngx_array_t, ngx_http_headers_in_t, ngx_http_headers_out_t, ngx_table_elt_t};
pub use list::{ngx_list_t, ListIterator};
pub use ngx_str::ngx_str_t;
pub use pool::ngx_pool_t;
