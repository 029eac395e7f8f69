use vstd::prelude::*;

verus! {

/// A pair of file names: that of the program, and that of the source that the
/// program was made from.
pub type FileNames = (Option<String>, Option<String>);

/// A pair of file names as the contracts speak of it.
pub type FileNamesModel = (Option<Seq<char>>, Option<Seq<char>>);

/// A place in a source: the files, line and column, and the line's text.
#[derive(Debug, PartialEq)]
pub struct MetaSpot {
    pub file_name: FileNames,
    pub pos: (u16, u16),
    pub code: String,
}

/// The source position of a statement. Where a second position follows a first
/// without a statement between them, the first is kept as the alternative.
#[derive(Debug, PartialEq)]
pub struct AmvmMeta {
    pub file_name: FileNames,
    pub pos: (u16, u16),
    pub code: String,
    pub alternative: Option<MetaSpot>,
}

/// What a block runs in: the file names, the position of the statement at
/// hand, the positions of the calls that led here (innermost first), and the
/// context that holds the block's bindings.
#[derive(Debug, PartialEq)]
pub struct AmvmScope {
    pub file_name: FileNames,
    pub meta: Option<AmvmMeta>,
    pub backtrace: Vec<AmvmMeta>,
    pub context: usize,
}

/// A place in a source as the contracts speak of it.
pub ghost struct SpotModel {
    pub file_name: FileNamesModel,
    pub pos: (u16, u16),
    pub code: Seq<char>,
}

/// A source position as the contracts speak of it.
pub ghost struct MetaModel {
    pub file_name: FileNamesModel,
    pub pos: (u16, u16),
    pub code: Seq<char>,
    pub alternative: Option<SpotModel>,
}

/// A scope as the contracts speak of it.
pub ghost struct ScopeModel {
    pub file_name: FileNamesModel,
    pub meta: Option<MetaModel>,
    pub backtrace: Seq<MetaModel>,
    pub context: usize,
}

/// The model of an optional name.
pub open spec fn name_model(n: Option<String>) -> Option<Seq<char>> {
    match n {
        Some(text) => Some(text@),
        None => None,
    }
}

/// The model of a pair of file names.
pub open spec fn names_model(n: FileNames) -> FileNamesModel {
    (name_model(n.0), name_model(n.1))
}

impl View for MetaSpot {
    type V = SpotModel;

    open spec fn view(&self) -> SpotModel {
        SpotModel { file_name: names_model(self.file_name), pos: self.pos, code: self.code@ }
    }
}

impl View for AmvmMeta {
    type V = MetaModel;

    open spec fn view(&self) -> MetaModel {
        MetaModel {
            file_name: names_model(self.file_name),
            pos: self.pos,
            code: self.code@,
            alternative: match self.alternative {
                Some(spot) => Some(spot@),
                None => None,
            },
        }
    }
}

/// The models of a list of source positions.
pub open spec fn metas_model(ms: Seq<AmvmMeta>) -> Seq<MetaModel> {
    Seq::new(ms.len(), |i: int| ms[i]@)
}

/// The model of an optional source position.
pub open spec fn meta_model(m: Option<AmvmMeta>) -> Option<MetaModel> {
    match m {
        Some(meta) => Some(meta@),
        None => None,
    }
}

impl View for AmvmScope {
    type V = ScopeModel;

    open spec fn view(&self) -> ScopeModel {
        ScopeModel {
            file_name: names_model(self.file_name),
            meta: meta_model(self.meta),
            backtrace: metas_model(self.backtrace@),
            context: self.context,
        }
    }
}

/// A copy of an optional name.
pub fn clone_name(n: &Option<String>) -> (r: Option<String>)
    ensures
        name_model(r) == name_model(*n),
{
    match n {
        Some(text) => Some(text.clone()),
        None => None,
    }
}

/// A copy of a pair of file names.
pub fn clone_names(n: &FileNames) -> (r: FileNames)
    ensures
        names_model(r) == names_model(*n),
{
    (clone_name(&n.0), clone_name(&n.1))
}

impl Clone for MetaSpot {
    fn clone(&self) -> (r: Self)
        ensures
            r@ == self@,
    {
        MetaSpot { file_name: clone_names(&self.file_name), pos: self.pos, code: self.code.clone() }
    }
}

impl Clone for AmvmMeta {
    fn clone(&self) -> (r: Self)
        ensures
            r@ == self@,
    {
        AmvmMeta {
            file_name: clone_names(&self.file_name),
            pos: self.pos,
            code: self.code.clone(),
            alternative: match &self.alternative {
                Some(spot) => Some(spot.clone()),
                None => None,
            },
        }
    }
}

impl AmvmMeta {
    /// The position without its alternative.
    pub fn spot(&self) -> (r: MetaSpot)
        ensures
            r@ == self@.spot(),
    {
        MetaSpot { file_name: clone_names(&self.file_name), pos: self.pos, code: self.code.clone() }
    }
}

impl MetaModel {
    /// The position without its alternative.
    pub open spec fn spot(self) -> SpotModel {
        SpotModel { file_name: self.file_name, pos: self.pos, code: self.code }
    }
}

impl ScopeModel {
    /// The positions that an error raised in the scope reports: that of the
    /// statement at hand, then those of the calls that led here.
    pub open spec fn full_backtrace(self) -> Seq<MetaModel> {
        match self.meta {
            Some(m) => seq![m] + self.backtrace,
            None => self.backtrace,
        }
    }

    /// The scope of a block inside this one, with `context` for its bindings.
    pub open spec fn sub(self, context: usize) -> ScopeModel {
        ScopeModel {
            file_name: self.file_name,
            meta: None,
            backtrace: self.full_backtrace(),
            context,
        }
    }

    /// The scope with no position at hand.
    pub open spec fn settled(self) -> ScopeModel {
        ScopeModel { meta: None, ..self }
    }

    /// The scope at a new source position.
    pub open spec fn at(self, pos: (u16, u16), code: Seq<char>) -> ScopeModel {
        ScopeModel {
            meta: Some(
                MetaModel {
                    file_name: self.file_name,
                    pos,
                    code,
                    alternative: match self.meta {
                        Some(m) => Some(m.spot()),
                        None => None,
                    },
                },
            ),
            ..self
        }
    }

    /// The scope with the source file named.
    pub open spec fn in_file(self, name: Seq<char>) -> ScopeModel {
        ScopeModel { file_name: (self.file_name.0, Some(name)), ..self }
    }
}

/// A copy of a list of source positions.
#[verifier::loop_isolation(false)]
pub fn clone_metas(list: &Vec<AmvmMeta>) -> (r: Vec<AmvmMeta>)
    ensures
        metas_model(r@) == metas_model(list@),
{
    let mut out: Vec<AmvmMeta> = Vec::new();
    let mut i: usize = 0;
    while i < list.len()
        invariant
            i <= list.len(),
            out@.len() == i,
            forall|j: int| 0 <= j < i ==> (#[trigger] out@[j])@ == list@[j]@,
        decreases list.len() - i,
    {
        out.push(list[i].clone());
        i += 1;
    }
    assert(metas_model(out@) =~= metas_model(list@));
    out
}

impl AmvmScope {
    /// The scope of a program in `file_name`, with `context` for its bindings.
    pub fn new(file_name: String, context: usize) -> (r: Self)
        ensures
            r@ == (ScopeModel {
                file_name: (Some(file_name@), None),
                meta: None,
                backtrace: Seq::<MetaModel>::empty(),
                context,
            }),
    {
        let r = AmvmScope {
            file_name: (Some(file_name), None),
            meta: None,
            backtrace: Vec::new(),
            context,
        };
        assert(metas_model(r.backtrace@) =~= Seq::<MetaModel>::empty());
        r
    }

    /// The positions that an error raised in the scope reports.
    #[verifier::loop_isolation(false)]
    pub fn full_backtrace(&self) -> (r: Vec<AmvmMeta>)
        ensures
            metas_model(r@) == self@.full_backtrace(),
    {
        let mut out: Vec<AmvmMeta> = Vec::new();
        match &self.meta {
            Some(m) => {
                out.push(m.clone());
            },
            None => {},
        }
        let ghost head = metas_model(out@);
        assert(head =~= (match self@.meta {
            Some(m) => seq![m],
            None => Seq::<MetaModel>::empty(),
        }));
        let mut i: usize = 0;
        while i < self.backtrace.len()
            invariant
                i <= self.backtrace.len(),
                metas_model(out@) =~= head + metas_model(self.backtrace@.take(i as int)),
            decreases self.backtrace.len() - i,
        {
            let ghost before = out@;
            let item = self.backtrace[i].clone();
            let ghost m = item@;
            out.push(item);
            assert(metas_model(out@) =~= metas_model(before).push(m));
            assert(metas_model(self.backtrace@.take(i + 1)) =~= metas_model(
                self.backtrace@.take(i as int),
            ).push(m));
            i += 1;
        }
        assert(self.backtrace@.take(self.backtrace@.len() as int) =~= self.backtrace@);
        assert(metas_model(out@) =~= self@.full_backtrace());
        out
    }

    /// The scope of a block inside this one, with `context` for its bindings.
    pub fn create_sub(&self, context: usize) -> (r: Self)
        ensures
            r@ == self@.sub(context),
    {
        AmvmScope {
            file_name: clone_names(&self.file_name),
            meta: None,
            backtrace: self.full_backtrace(),
            context,
        }
    }

    /// Forgets the position at hand.
    pub fn settle(&mut self)
        ensures
            final(self)@ == old(self)@.settled(),
    {
        self.meta = None;
    }

    /// Moves the scope to a new source position.
    pub fn locate(&mut self, pos: (u16, u16), code: &String)
        ensures
            final(self)@ == old(self)@.at(pos, code@),
    {
        let alternative = match &self.meta {
            Some(m) => Some(m.spot()),
            None => None,
        };
        self.meta = Some(
            AmvmMeta { file_name: clone_names(&self.file_name), pos, code: code.clone(), alternative },
        );
    }

    /// Names the source file of the scope.
    pub fn name_file(&mut self, name: &String)
        ensures
            final(self)@ == old(self)@.in_file(name@),
    {
        self.file_name.1 = Some(name.clone());
    }
}

impl Clone for AmvmScope {
    fn clone(&self) -> (r: Self)
        ensures
            r@ == self@,
    {
        AmvmScope {
            file_name: clone_names(&self.file_name),
            meta: match &self.meta {
                Some(m) => Some(m.clone()),
                None => None,
            },
            backtrace: clone_metas(&self.backtrace),
            context: self.context,
        }
    }
}

} // verus!
