//! Model file layout of the keyword spotter and its configuration.
use vstd::prelude::*;
use std::path::{Path, PathBuf};
use crate::kws::{KwsError, KwsFile};

verus! {

/// `std::path::PathBuf`, carried through the library unopened.
#[verifier::external_type_specification]
#[verifier::external_body]
pub struct ExPathBuf(PathBuf);

/// `std::path::Path`, carried through the library unopened.
#[verifier::external_type_specification]
#[verifier::external_body]
pub struct ExPath(Path);

/// `Clone::clone` of `std::path::PathBuf`, which the derived `Clone` of the
/// two structs below calls. The copy holds the same path, but the library has
/// no model of a path's contents (only of what `Path::join` gives, below), so
/// nothing is stated of the result.
pub assume_specification[<PathBuf as Clone>::clone](p: &PathBuf) -> (r: PathBuf);

/// Paths to a sherpa-onnx keyword spotting model.
#[derive(Debug, Clone)]
pub struct KwsModelPaths {
    pub encoder: PathBuf,
    pub decoder: PathBuf,
    pub joiner: PathBuf,
    pub tokens: PathBuf,
    pub keywords_file: PathBuf,
}

/// Configuration for the sherpa-onnx keyword spotting engine.
#[derive(Debug, Clone)]
pub struct KwsConfig {
    pub model_paths: KwsModelPaths,
    pub provider: String,
    pub num_threads: i32,
    pub debug: bool,
}

/// What `Path::join` gives for a directory and a relative file name.
pub uninterp spec fn joined_path(dir: &Path, file: Seq<char>) -> PathBuf;

/// Calls `std::path::Path::join`; its result is the joined path named above.
#[verifier::external_body]
fn join_path(dir: &Path, file: &str) -> (r: PathBuf)
    ensures
        r == joined_path(dir, file@),
{
    dir.join(file)
}

/// Position of a model file in the checking order: encoder, decoder, joiner,
/// tokens, keywords file.
pub open spec fn file_rank(f: KwsFile) -> int {
    match f {
        KwsFile::Encoder => 0,
        KwsFile::Decoder => 1,
        KwsFile::Joiner => 2,
        KwsFile::Tokens => 3,
        KwsFile::KeywordsFile => 4,
    }
}

impl KwsModelPaths {
    /// The path of one model file.
    pub open spec fn path_of(&self, f: KwsFile) -> PathBuf {
        match f {
            KwsFile::Encoder => self.encoder,
            KwsFile::Decoder => self.decoder,
            KwsFile::Joiner => self.joiner,
            KwsFile::Tokens => self.tokens,
            KwsFile::KeywordsFile => self.keywords_file,
        }
    }

    /// Whether `r` is what checking the files with `present` reports, given
    /// the answers `present` can give: success when every file was found, and
    /// otherwise the first file, in checking order, found missing, after all
    /// files before it were found.
    pub open spec fn presence_outcome<F: Fn(&PathBuf) -> bool>(
        &self,
        present: F,
        r: Result<(), KwsError>,
    ) -> bool {
        match r {
            Ok(()) => forall|f: KwsFile| #[trigger] call_ensures(present, (&self.path_of(f),), true),
            Err(KwsError::FileNotFound { file }) => {
                &&& call_ensures(present, (&self.path_of(file),), false)
                &&& forall|g: KwsFile|
                    file_rank(g) < file_rank(file) ==> #[trigger] call_ensures(
                        present,
                        (&self.path_of(g),),
                        true,
                    )
            },
        }
    }

    /// Validate that all required model files exist, asking `present` about
    /// each path in the order encoder, decoder, joiner, tokens, keywords file
    /// and stopping at the first one it reports missing; that file is
    /// reported. (Callers pass a test on the disk, such as `Path::exists`.)
    pub fn validate<F: Fn(&PathBuf) -> bool>(&self, present: F) -> (r: Result<(), KwsError>)
        requires
            forall|p: &PathBuf| #[trigger] call_requires(present, (p,)),
        ensures
            self.presence_outcome(present, r),
    {
        if !present(&self.encoder) {
            return Err(KwsError::FileNotFound { file: KwsFile::Encoder });
        }
        if !present(&self.decoder) {
            return Err(KwsError::FileNotFound { file: KwsFile::Decoder });
        }
        if !present(&self.joiner) {
            return Err(KwsError::FileNotFound { file: KwsFile::Joiner });
        }
        if !present(&self.tokens) {
            return Err(KwsError::FileNotFound { file: KwsFile::Tokens });
        }
        if !present(&self.keywords_file) {
            return Err(KwsError::FileNotFound { file: KwsFile::KeywordsFile });
        }
        proof {
            assert forall|f: KwsFile| #[trigger] call_ensures(present, (&self.path_of(f),), true) by {
                match f {
                    KwsFile::Encoder => {},
                    KwsFile::Decoder => {},
                    KwsFile::Joiner => {},
                    KwsFile::Tokens => {},
                    KwsFile::KeywordsFile => {},
                }
            }
        }
        Ok(())
    }
}

/// What checking the model files reports, field by field: success only when
/// the encoder, decoder, joiner, tokens and keywords file were all found; a
/// missing file is reported only after every file checked before it, in that
/// order, was found.
pub proof fn law_files_checked_in_order<F: Fn(&PathBuf) -> bool>(
    paths: KwsModelPaths,
    present: F,
    r: Result<(), KwsError>,
)
    requires
        paths.presence_outcome(present, r),
    ensures
        r is Ok ==> {
            &&& call_ensures(present, (&paths.encoder,), true)
            &&& call_ensures(present, (&paths.decoder,), true)
            &&& call_ensures(present, (&paths.joiner,), true)
            &&& call_ensures(present, (&paths.tokens,), true)
            &&& call_ensures(present, (&paths.keywords_file,), true)
        },
        r == Err::<(), KwsError>(KwsError::FileNotFound { file: KwsFile::Encoder }) ==> call_ensures(
            present,
            (&paths.encoder,),
            false,
        ),
        r == Err::<(), KwsError>(KwsError::FileNotFound { file: KwsFile::Decoder }) ==> {
            &&& call_ensures(present, (&paths.encoder,), true)
            &&& call_ensures(present, (&paths.decoder,), false)
        },
        r == Err::<(), KwsError>(KwsError::FileNotFound { file: KwsFile::Joiner }) ==> {
            &&& call_ensures(present, (&paths.encoder,), true)
            &&& call_ensures(present, (&paths.decoder,), true)
            &&& call_ensures(present, (&paths.joiner,), false)
        },
        r == Err::<(), KwsError>(KwsError::FileNotFound { file: KwsFile::Tokens }) ==> {
            &&& call_ensures(present, (&paths.encoder,), true)
            &&& call_ensures(present, (&paths.decoder,), true)
            &&& call_ensures(present, (&paths.joiner,), true)
            &&& call_ensures(present, (&paths.tokens,), false)
        },
        r == Err::<(), KwsError>(KwsError::FileNotFound { file: KwsFile::KeywordsFile }) ==> {
            &&& call_ensures(present, (&paths.encoder,), true)
            &&& call_ensures(present, (&paths.decoder,), true)
            &&& call_ensures(present, (&paths.joiner,), true)
            &&& call_ensures(present, (&paths.tokens,), true)
            &&& call_ensures(present, (&paths.keywords_file,), false)
        },
{
    assert(paths.path_of(KwsFile::Encoder) == paths.encoder);
    assert(paths.path_of(KwsFile::Decoder) == paths.decoder);
    assert(paths.path_of(KwsFile::Joiner) == paths.joiner);
    assert(paths.path_of(KwsFile::Tokens) == paths.tokens);
    assert(paths.path_of(KwsFile::KeywordsFile) == paths.keywords_file);
    assert(file_rank(KwsFile::Encoder) == 0);
    assert(file_rank(KwsFile::Decoder) == 1);
    assert(file_rank(KwsFile::Joiner) == 2);
    assert(file_rank(KwsFile::Tokens) == 3);
    assert(file_rank(KwsFile::KeywordsFile) == 4);
}

impl KwsConfig {
    /// Build a config from a model directory, using the default file names for the
    /// `sherpa-onnx-kws-zipformer-zh-en-3M-2025-12-20` model layout, the `cpu`
    /// provider, one thread and no debug output.
    pub fn from_model_dir(dir: &Path) -> (r: Self)
        ensures
            r.model_paths.encoder == joined_path(dir, "encoder-epoch-13-avg-2-chunk-16-left-64.onnx"@),
            r.model_paths.decoder == joined_path(dir, "decoder-epoch-13-avg-2-chunk-16-left-64.onnx"@),
            r.model_paths.joiner == joined_path(dir, "joiner-epoch-13-avg-2-chunk-16-left-64.onnx"@),
            r.model_paths.tokens == joined_path(dir, "tokens.txt"@),
            r.model_paths.keywords_file == joined_path(dir, "keywords.txt"@),
            r.provider@ == "cpu"@,
            r.num_threads == 1,
            !r.debug,
    {
        KwsConfig {
            model_paths: KwsModelPaths {
                encoder: join_path(dir, "encoder-epoch-13-avg-2-chunk-16-left-64.onnx"),
                decoder: join_path(dir, "decoder-epoch-13-avg-2-chunk-16-left-64.onnx"),
                joiner: join_path(dir, "joiner-epoch-13-avg-2-chunk-16-left-64.onnx"),
                tokens: join_path(dir, "tokens.txt"),
                keywords_file: join_path(dir, "keywords.txt"),
            },
            provider: String::from_str("cpu"),
            num_threads: 1,
            debug: false,
        }
    }
}

} // verus!
