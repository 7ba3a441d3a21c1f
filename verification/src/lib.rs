pub mod errors;
pub mod files;
pub mod nfs;
pub mod resolver;
pub mod tokenizer;

pub use errors::FfiError;
pub use files::{get_file_content, get_file_size, get_reader, Reader};
pub use nfs::{AccessLevel, Client, DirectoryKey, DirectoryListing, DirectoryMetadata, File};
pub use resolver::{find_sub_directory, get_final_subdirectory};
pub use tokenizer::{path_tokeniser, tokenise_str};
