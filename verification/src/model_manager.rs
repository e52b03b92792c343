//! Knowing which speech models are installed, and what to fetch when
//! some are missing.

use vstd::prelude::*;
use crate::text::{chars_of, contains_string, join_path, split, views};

verus! {

/// Where the wake word model is downloaded from.
pub const WAKEWORD_MODEL_URL: &'static str = "https://github.com/k2-fsa/sherpa-onnx/releases/download/kws-models/sherpa-onnx-kws-zipformer-wenetspeech-3.3M-2024-01-01-mobile.tar.bz2";

/// Where the speech recognition model is downloaded from.
pub const ASR_MODEL_URL: &'static str = "https://github.com/k2-fsa/sherpa-onnx/releases/download/asr-models/sherpa-onnx-streaming-zipformer-bilingual-zh-en-2023-02-20.tar.bz2";

/// Where the speech synthesis model is downloaded from.
pub const TTS_MODEL_URL: &'static str = "https://github.com/k2-fsa/sherpa-onnx/releases/download/tts-models/kokoro-multi-lang-v1_0.tar.bz2";

/// The files that the wake word model needs.
pub open spec fn wakeword_files() -> Seq<Seq<char>> {
    seq![
        "encoder-epoch-12-avg-2-chunk-16-left-64.int8.onnx"@,
        "decoder-epoch-12-avg-2-chunk-16-left-64.onnx"@,
        "joiner-epoch-12-avg-2-chunk-16-left-64.int8.onnx"@,
        "tokens.txt"@,
        "keywords.txt"@,
    ]
}

/// The files that the speech recognition model needs.
pub open spec fn asr_files() -> Seq<Seq<char>> {
    seq![
        "encoder-epoch-99-avg-1.int8.onnx"@,
        "decoder-epoch-99-avg-1.onnx"@,
        "joiner-epoch-99-avg-1.int8.onnx"@,
        "tokens.txt"@,
    ]
}

/// The files that the speech synthesis model needs.
pub open spec fn tts_files() -> Seq<Seq<char>> {
    seq!["model.onnx"@, "voices.bin"@, "tokens.txt"@]
}

/// The views of a sequence of string slices.
pub open spec fn str_views(v: Seq<&str>) -> Seq<Seq<char>> {
    v.map_values(|x: &str| x@)
}

/// The path of `name` inside the directory `dir`.
pub open spec fn path_in(dir: Seq<char>, name: Seq<char>) -> Seq<char> {
    dir + "/"@ + name
}

/// The model directory `dir` under `base` is present and holds every one
/// of `files`, judging by the paths in `present`.
pub open spec fn dir_complete(
    base: Seq<char>,
    dir: Seq<char>,
    files: Seq<Seq<char>>,
    present: Seq<Seq<char>>,
) -> bool {
    let d = path_in(base, dir);
    &&& present.contains(d)
    &&& forall|i: int| 0 <= i < files.len() ==> present.contains(path_in(d, #[trigger] files[i]))
}

/// The file name at the end of a download URL.
pub open spec fn archive_name_of(url: Seq<char>) -> Seq<char> {
    split(url, "/"@).last()
}

/// Which of the three models are installed.
#[derive(Debug, Clone, Copy, PartialEq, Eq, Structural)]
pub struct ModelStatus {
    pub wakeword: bool,
    pub asr: bool,
    pub tts: bool,
}

/// The names of the missing models, in the order wake word, recognition,
/// synthesis.
pub open spec fn missing_names(s: ModelStatus) -> Seq<Seq<char>> {
    (if s.wakeword {
        Seq::<Seq<char>>::empty()
    } else {
        seq!["WakeWord"@]
    }) + (if s.asr {
        Seq::<Seq<char>>::empty()
    } else {
        seq!["ASR"@]
    }) + (if s.tts {
        Seq::<Seq<char>>::empty()
    } else {
        seq!["TTS"@]
    })
}

impl ModelStatus {
    /// Whether all three models are installed.
    pub fn is_all_complete(&self) -> (b: bool)
        ensures
            b == (self.wakeword && self.asr && self.tts),
    {
        self.wakeword && self.asr && self.tts
    }

    /// The names of the missing models.
    pub fn missing(&self) -> (names: Vec<&'static str>)
        ensures
            str_views(names@) == missing_names(*self),
    {
        let mut names: Vec<&'static str> = Vec::new();
        if !self.wakeword {
            names.push("WakeWord");
        }
        if !self.asr {
            names.push("ASR");
        }
        if !self.tts {
            names.push("TTS");
        }
        assert(str_views(names@) =~= missing_names(*self));
        names
    }
}

/// All models are installed exactly when none is reported missing.
pub proof fn law_complete_iff_none_missing(s: ModelStatus)
    ensures
        (s.wakeword && s.asr && s.tts) <==> missing_names(s).len() == 0,
{
}

/// A model to fetch: where from, and the directory it goes to.
#[derive(Debug, Clone, Copy, PartialEq, Eq)]
pub struct DownloadJob {
    pub url: &'static str,
    pub dir: &'static str,
    /// Whether the wake word keyword list must be set up afterwards.
    pub setup_keywords: bool,
}

/// A symbolic link to create: the target file and the link's path.
#[derive(Debug)]
pub struct SymlinkJob {
    pub target: String,
    pub link: String,
}

/// Knows where the models live.
pub struct ModelManager {
    models_dir: String,
}

impl View for ModelManager {
    type V = Seq<char>;

    /// The directory that holds the models.
    closed spec fn view(&self) -> Seq<char> {
        self.models_dir@
    }
}

/// The wake word model's files.
fn wakeword_file_list() -> (v: Vec<&'static str>)
    ensures
        str_views(v@) == wakeword_files(),
{
    let v = vec![
        "encoder-epoch-12-avg-2-chunk-16-left-64.int8.onnx",
        "decoder-epoch-12-avg-2-chunk-16-left-64.onnx",
        "joiner-epoch-12-avg-2-chunk-16-left-64.int8.onnx",
        "tokens.txt",
        "keywords.txt",
    ];
    assert(str_views(v@) =~= wakeword_files());
    v
}

/// The speech recognition model's files.
fn asr_file_list() -> (v: Vec<&'static str>)
    ensures
        str_views(v@) == asr_files(),
{
    let v = vec![
        "encoder-epoch-99-avg-1.int8.onnx",
        "decoder-epoch-99-avg-1.onnx",
        "joiner-epoch-99-avg-1.int8.onnx",
        "tokens.txt",
    ];
    assert(str_views(v@) =~= asr_files());
    v
}

/// The speech synthesis model's files.
fn tts_file_list() -> (v: Vec<&'static str>)
    ensures
        str_views(v@) == tts_files(),
{
    let v = vec!["model.onnx", "voices.bin", "tokens.txt"];
    assert(str_views(v@) =~= tts_files());
    v
}

impl ModelManager {
    /// Models live in `./models`.
    pub fn new() -> (m: Self)
        ensures
            m@ == "./models"@,
    {
        ModelManager { models_dir: String::from_str("./models") }
    }

    /// The directory that holds the models.
    pub fn models_dir(&self) -> (d: &str)
        ensures
            d@ == self@,
    {
        self.models_dir.as_str()
    }

    /// Whether the model directory `dir` and all its `files` are among the
    /// `present` paths.
    fn check_dir(&self, dir: &str, files: &Vec<&'static str>, present: &Vec<String>) -> (ok: bool)
        ensures
            ok == dir_complete(self@, dir@, str_views(files@), views(present@)),
    {
        let dir_path = join_path(self.models_dir.as_str(), dir);
        if !contains_string(present, dir_path.as_str()) {
            return false;
        }
        let mut i: usize = 0;
        while i < files.len()
            invariant
                i <= files@.len(),
                dir_path@ == path_in(self@, dir@),
                forall|j: int|
                    0 <= j < i ==> views(present@).contains(
                        path_in(dir_path@, #[trigger] str_views(files@)[j]),
                    ),
            decreases files@.len() - i,
        {
            let p = join_path(dir_path.as_str(), files[i]);
            if !contains_string(present, p.as_str()) {
                assert(!views(present@).contains(path_in(dir_path@, str_views(files@)[i as int])));
                return false;
            }
            i = i + 1;
        }
        true
    }

    /// Which models are installed, given the paths under the model
    /// directory that exist: a model counts as installed when its
    /// directory and each of its files are among them.
    pub fn check_models(&self, present: &Vec<String>) -> (s: ModelStatus)
        ensures
            s.wakeword == dir_complete(self@, "wakeword"@, wakeword_files(), views(present@)),
            s.asr == dir_complete(self@, "asr"@, asr_files(), views(present@)),
            s.tts == dir_complete(self@, "kokoro"@, tts_files(), views(present@)),
    {
        let wakeword = self.check_dir("wakeword", &wakeword_file_list(), present);
        let asr = self.check_dir("asr", &asr_file_list(), present);
        let tts = self.check_dir("kokoro", &tts_file_list(), present);
        ModelStatus { wakeword, asr, tts }
    }

    /// Every path that `check_models` looks for: each model directory
    /// followed by its files.
    pub fn paths_to_check(&self) -> (paths: Vec<String>)
        ensures
            forall|i: int|
                0 <= i < wakeword_files().len() ==> views(paths@).contains(
                    path_in(path_in(self@, "wakeword"@), #[trigger] wakeword_files()[i]),
                ),
            forall|i: int|
                0 <= i < asr_files().len() ==> views(paths@).contains(
                    path_in(path_in(self@, "asr"@), #[trigger] asr_files()[i]),
                ),
            forall|i: int|
                0 <= i < tts_files().len() ==> views(paths@).contains(
                    path_in(path_in(self@, "kokoro"@), #[trigger] tts_files()[i]),
                ),
            views(paths@).contains(path_in(self@, "wakeword"@)),
            views(paths@).contains(path_in(self@, "asr"@)),
            views(paths@).contains(path_in(self@, "kokoro"@)),
    {
        let mut paths: Vec<String> = Vec::new();
        self.dir_paths("wakeword", &wakeword_file_list(), &mut paths);
        self.dir_paths("asr", &asr_file_list(), &mut paths);
        self.dir_paths("kokoro", &tts_file_list(), &mut paths);
        paths
    }

    /// Appends the path of `dir` and of each of its `files` to `paths`.
    fn dir_paths(&self, dir: &str, files: &Vec<&'static str>, paths: &mut Vec<String>)
        ensures
            views(old(paths)@).len() <= views(final(paths)@).len(),
            forall|i: int|
                0 <= i < views(old(paths)@).len() ==> views(final(paths)@)[i] == views(
                    old(paths)@,
                )[i],
            views(final(paths)@).contains(path_in(self@, dir@)),
            forall|i: int|
                0 <= i < files@.len() ==> views(final(paths)@).contains(
                    path_in(path_in(self@, dir@), #[trigger] str_views(files@)[i]),
                ),
    {
        let d = join_path(self.models_dir.as_str(), dir);
        let ghost start = paths@.len();
        paths.push(d.clone());
        assert(views(paths@)[start as int] == path_in(self@, dir@));
        let mut i: usize = 0;
        while i < files.len()
            invariant
                i <= files@.len(),
                d@ == path_in(self@, dir@),
                paths@.len() == start + 1 + i,
                forall|j: int| 0 <= j < start ==> views(paths@)[j] == views(old(paths)@)[j],
                views(paths@)[start as int] == path_in(self@, dir@),
                forall|j: int|
                    0 <= j < i ==> views(paths@)[start + 1 + j] == path_in(
                        d@,
                        #[trigger] str_views(files@)[j],
                    ),
            decreases files@.len() - i,
        {
            let p = join_path(d.as_str(), files[i]);
            paths.push(p);
            i = i + 1;
        }
        assert forall|j: int| 0 <= j < files@.len() implies views(paths@).contains(
            path_in(path_in(self@, dir@), #[trigger] str_views(files@)[j]),
        ) by {
            assert(views(paths@)[start + 1 + j] == path_in(d@, str_views(files@)[j]));
        }
        assert(views(paths@)[start as int] == path_in(self@, dir@));
    }

    /// The models to fetch for the missing ones, largest first: speech
    /// recognition, then synthesis, then the wake word model (whose
    /// keyword list is then set up).
    pub fn download_plan(&self, status: &ModelStatus) -> (jobs: Vec<DownloadJob>)
        ensures
            jobs@ == (if status.asr {
                Seq::<DownloadJob>::empty()
            } else {
                seq![DownloadJob { url: ASR_MODEL_URL, dir: "asr", setup_keywords: false }]
            }) + (if status.tts {
                Seq::<DownloadJob>::empty()
            } else {
                seq![DownloadJob { url: TTS_MODEL_URL, dir: "kokoro", setup_keywords: false }]
            }) + (if status.wakeword {
                Seq::<DownloadJob>::empty()
            } else {
                seq![DownloadJob { url: WAKEWORD_MODEL_URL, dir: "wakeword", setup_keywords: true }]
            }),
    {
        let mut jobs: Vec<DownloadJob> = Vec::new();
        if !status.asr {
            jobs.push(DownloadJob { url: ASR_MODEL_URL, dir: "asr", setup_keywords: false });
        }
        if !status.tts {
            jobs.push(DownloadJob { url: TTS_MODEL_URL, dir: "kokoro", setup_keywords: false });
        }
        if !status.wakeword {
            jobs.push(DownloadJob { url: WAKEWORD_MODEL_URL, dir: "wakeword", setup_keywords: true });
        }
        assert(jobs@ =~= (if status.asr {
            Seq::<DownloadJob>::empty()
        } else {
            seq![DownloadJob { url: ASR_MODEL_URL, dir: "asr", setup_keywords: false }]
        }) + (if status.tts {
            Seq::<DownloadJob>::empty()
        } else {
            seq![DownloadJob { url: TTS_MODEL_URL, dir: "kokoro", setup_keywords: false }]
        }) + (if status.wakeword {
            Seq::<DownloadJob>::empty()
        } else {
            seq![DownloadJob { url: WAKEWORD_MODEL_URL, dir: "wakeword", setup_keywords: true }]
        }));
        jobs
    }
}

/// The file name at the end of a download URL: what follows its last `/`.
pub fn archive_name(url: &str) -> (name: String)
    ensures
        name@ == archive_name_of(url@),
{
    let s = chars_of(url);
    let mut last: usize = 0;
    let mut i: usize = 0;
    while i < s.len()
        invariant
            s@ == url@,
            last <= i <= s@.len(),
            last == 0 || (last >= 1 && s@[last - 1] == '/'),
            forall|j: int| last <= j < i ==> s@[j] != '/',
        decreases s@.len() - i,
    {
        if s[i] == '/' {
            last = i + 1;
        }
        i = i + 1;
    }
    proof {
        crate::text::lemma_split_last_piece(s@, '/', last as int);
        reveal_strlit("/");
        assert("/"@ =~= seq!['/']);
        assert(s@.skip(last as int) =~= s@.subrange(last as int, s@.len() as int));
    }
    crate::text::string_of(&s, last, s.len())
}

/// The links that give the wake word and recognition models' files the
/// plain names the recognizers expect: (model directory, link name, file
/// linked to).
pub open spec fn link_specs() -> Seq<(Seq<char>, Seq<char>, Seq<char>)> {
    seq![
        ("wakeword"@, "encoder.onnx"@, "encoder-epoch-12-avg-2-chunk-16-left-64.int8.onnx"@),
        ("wakeword"@, "decoder.onnx"@, "decoder-epoch-12-avg-2-chunk-16-left-64.onnx"@),
        ("wakeword"@, "joiner.onnx"@, "joiner-epoch-12-avg-2-chunk-16-left-64.int8.onnx"@),
        ("asr"@, "encoder.onnx"@, "encoder-epoch-99-avg-1.int8.onnx"@),
        ("asr"@, "decoder.onnx"@, "decoder-epoch-99-avg-1.onnx"@),
        ("asr"@, "joiner.onnx"@, "joiner-epoch-99-avg-1.int8.onnx"@),
    ]
}

/// The links still to create under `base`, in the order of `specs`: those
/// whose link is not among `present` while the file it points to is.
pub open spec fn links_needed(
    base: Seq<char>,
    specs: Seq<(Seq<char>, Seq<char>, Seq<char>)>,
    present: Seq<Seq<char>>,
) -> Seq<(Seq<char>, Seq<char>)>
    decreases specs.len(),
{
    if specs.len() == 0 {
        Seq::empty()
    } else {
        let s = specs.last();
        let d = path_in(base, s.0);
        let link = path_in(d, s.1);
        let target = path_in(d, s.2);
        links_needed(base, specs.drop_last(), present) + if !present.contains(link)
            && present.contains(target) {
            seq![(target, link)]
        } else {
            Seq::empty()
        }
    }
}

/// Where the link of `spec` goes under `base`.
pub open spec fn link_of(base: Seq<char>, spec: (Seq<char>, Seq<char>, Seq<char>)) -> Seq<char> {
    path_in(path_in(base, spec.0), spec.1)
}

/// The file the link of `spec` points to under `base`.
pub open spec fn target_of(base: Seq<char>, spec: (Seq<char>, Seq<char>, Seq<char>)) -> Seq<char> {
    path_in(path_in(base, spec.0), spec.2)
}

/// Every link planned is one of `specs`, its link path is absent and the
/// file it points to is present.
proof fn lemma_links_needed_sound(
    base: Seq<char>,
    specs: Seq<(Seq<char>, Seq<char>, Seq<char>)>,
    present: Seq<Seq<char>>,
)
    ensures
        forall|i: int|
            0 <= i < links_needed(base, specs, present).len() ==> {
                let job = #[trigger] links_needed(base, specs, present)[i];
                &&& !present.contains(job.1)
                &&& present.contains(job.0)
                &&& exists|j: int|
                    0 <= j < specs.len() && job == (target_of(base, specs[j]), link_of(base, specs[j]))
            },
    decreases specs.len(),
{
    if specs.len() > 0 {
        let init = specs.drop_last();
        let l0 = links_needed(base, init, present);
        let l = links_needed(base, specs, present);
        lemma_links_needed_sound(base, init, present);
        assert forall|i: int| 0 <= i < l.len() implies {
            let job = #[trigger] l[i];
            &&& !present.contains(job.1)
            &&& present.contains(job.0)
            &&& exists|j: int|
                0 <= j < specs.len() && job == (target_of(base, specs[j]), link_of(base, specs[j]))
        } by {
            if i < l0.len() {
                assert(l[i] == l0[i]);
                let j = choose|j: int|
                    0 <= j < init.len() && l0[i] == (target_of(base, init[j]), link_of(base, init[j]));
                assert(specs[j] == init[j]);
            } else {
                assert(l[i] == (target_of(base, specs[specs.len() - 1]), link_of(base, specs[specs.len() - 1])));
            }
        }
    }
}

/// Every link of `specs` whose path is absent while its file is present
/// is planned.
proof fn lemma_links_needed_complete(
    base: Seq<char>,
    specs: Seq<(Seq<char>, Seq<char>, Seq<char>)>,
    present: Seq<Seq<char>>,
)
    ensures
        forall|j: int|
            0 <= j < specs.len() && !present.contains(link_of(base, #[trigger] specs[j])) && present.contains(
                target_of(base, specs[j]),
            ) ==> links_needed(base, specs, present).contains(
                (target_of(base, specs[j]), link_of(base, specs[j])),
            ),
    decreases specs.len(),
{
    if specs.len() > 0 {
        let init = specs.drop_last();
        let l0 = links_needed(base, init, present);
        let l = links_needed(base, specs, present);
        lemma_links_needed_complete(base, init, present);
        assert forall|j: int|
            0 <= j < specs.len() && !present.contains(link_of(base, #[trigger] specs[j])) && present.contains(
                target_of(base, specs[j]),
            ) implies l.contains((target_of(base, specs[j]), link_of(base, specs[j]))) by {
            let job = (target_of(base, specs[j]), link_of(base, specs[j]));
            if j < specs.len() - 1 {
                assert(init[j] == specs[j]);
                let k = choose|k: int| 0 <= k < l0.len() && l0[k] == job;
                assert(l[k] == l0[k]);
            } else {
                assert(l[l.len() - 1] == job);
            }
        }
    }
}

/// A link is planned exactly when its path is absent and the file it
/// points to is present: each planned job comes from one of `specs`, has
/// an absent link path and a present target, and each spec whose link is
/// absent while its target is present is planned.
pub proof fn law_links_planned_when_needed(
    base: Seq<char>,
    specs: Seq<(Seq<char>, Seq<char>, Seq<char>)>,
    present: Seq<Seq<char>>,
)
    ensures
        forall|i: int|
            0 <= i < links_needed(base, specs, present).len() ==> {
                let job = #[trigger] links_needed(base, specs, present)[i];
                &&& !present.contains(job.1)
                &&& present.contains(job.0)
                &&& exists|j: int|
                    0 <= j < specs.len() && job == (target_of(base, specs[j]), link_of(base, specs[j]))
            },
        forall|j: int|
            0 <= j < specs.len() && !present.contains(link_of(base, #[trigger] specs[j])) && present.contains(
                target_of(base, specs[j]),
            ) ==> links_needed(base, specs, present).contains(
                (target_of(base, specs[j]), link_of(base, specs[j])),
            ),
{
    lemma_links_needed_sound(base, specs, present);
    lemma_links_needed_complete(base, specs, present);
}

/// The views of symbolic link jobs.
pub open spec fn link_views(v: Seq<SymlinkJob>) -> Seq<(Seq<char>, Seq<char>)> {
    v.map_values(|j: SymlinkJob| (j.target@, j.link@))
}

fn link_spec_list() -> (v: Vec<(&'static str, &'static str, &'static str)>)
    ensures
        v@.map_values(|e: (&'static str, &'static str, &'static str)| (e.0@, e.1@, e.2@))
            == link_specs(),
{
    let v = vec![
        ("wakeword", "encoder.onnx", "encoder-epoch-12-avg-2-chunk-16-left-64.int8.onnx"),
        ("wakeword", "decoder.onnx", "decoder-epoch-12-avg-2-chunk-16-left-64.onnx"),
        ("wakeword", "joiner.onnx", "joiner-epoch-12-avg-2-chunk-16-left-64.int8.onnx"),
        ("asr", "encoder.onnx", "encoder-epoch-99-avg-1.int8.onnx"),
        ("asr", "decoder.onnx", "decoder-epoch-99-avg-1.onnx"),
        ("asr", "joiner.onnx", "joiner-epoch-99-avg-1.int8.onnx"),
    ];
    assert(v@.map_values(|e: (&'static str, &'static str, &'static str)| (e.0@, e.1@, e.2@))
        =~= link_specs());
    v
}

impl ModelManager {
    /// The symbolic links to create after a download, given the paths that
    /// exist: a model file gets its plain name when that name is not taken
    /// yet and the file is there.
    pub fn symlink_plan(&self, present: &Vec<String>) -> (jobs: Vec<SymlinkJob>)
        ensures
            link_views(jobs@) == links_needed(self@, link_specs(), views(present@)),
            forall|i: int|
                0 <= i < jobs@.len() ==> !views(present@).contains((#[trigger] jobs@[i]).link@) && views(
                    present@,
                ).contains(jobs@[i].target@),
            forall|j: int|
                0 <= j < link_specs().len() && !views(present@).contains(
                    link_of(self@, #[trigger] link_specs()[j]),
                ) && views(present@).contains(target_of(self@, link_specs()[j])) ==> link_views(
                    jobs@,
                ).contains((target_of(self@, link_specs()[j]), link_of(self@, link_specs()[j]))),
    {
        let specs = link_spec_list();
        let ghost sv = specs@.map_values(
            |e: (&'static str, &'static str, &'static str)| (e.0@, e.1@, e.2@),
        );
        let mut jobs: Vec<SymlinkJob> = Vec::new();
        let mut i: usize = 0;
        while i < specs.len()
            invariant
                i <= specs@.len(),
                sv == specs@.map_values(
                    |e: (&'static str, &'static str, &'static str)| (e.0@, e.1@, e.2@),
                ),
                link_views(jobs@) == links_needed(self@, sv.take(i as int), views(present@)),
            decreases specs@.len() - i,
        {
            let (dir, link_name, file) = specs[i];
            let d = join_path(self.models_dir.as_str(), dir);
            let link = join_path(d.as_str(), link_name);
            let target = join_path(d.as_str(), file);
            let ghost before = jobs@;
            proof {
                let t = sv.take(i + 1);
                assert(t.drop_last() =~= sv.take(i as int));
                assert(t.last() == sv[i as int]);
            }
            if !contains_string(present, link.as_str()) && contains_string(present, target.as_str()) {
                jobs.push(SymlinkJob { target, link });
                assert(link_views(jobs@) =~= link_views(before).push(
                    (path_in(path_in(self@, dir@), file@), path_in(path_in(self@, dir@), link_name@)),
                ));
            } else {
                assert(link_views(jobs@) =~= link_views(before));
            }
            i = i + 1;
        }
        assert(sv.take(specs@.len() as int) =~= sv);
        proof {
            law_links_planned_when_needed(self@, link_specs(), views(present@));
            assert forall|i: int| 0 <= i < jobs@.len() implies !views(present@).contains(
                (#[trigger] jobs@[i]).link@,
            ) && views(present@).contains(jobs@[i].target@) by {
                assert(link_views(jobs@)[i] == (jobs@[i].target@, jobs@[i].link@));
            }
        }
        jobs
    }
}

impl Default for ModelManager {
    fn default() -> (m: Self)
        ensures
            m@ == "./models"@,
    {
        Self::new()
    }
}

} // verus!
