use vstd::prelude::*;

verus! {

/// What one diagnostic says, as the contracts see it.
pub enum UnitView {
    Warning(Seq<char>),
    Error(Seq<char>),
}

/// One entry of the diagnostics log.
pub enum Unit {
    Warning(String),
    Error(String),
}

impl View for Unit {
    type V = UnitView;

    open spec fn view(&self) -> UnitView {
        match self {
            Unit::Warning(m) => UnitView::Warning(m@),
            Unit::Error(m) => UnitView::Error(m@),
        }
    }
}

/// The text shown for a diagnostic: `Warning: <message>` or `Error: <message>`.
pub open spec fn rendered(u: UnitView) -> Seq<char> {
    match u {
        UnitView::Warning(m) => "Warning: "@ + m,
        UnitView::Error(m) => "Error: "@ + m,
    }
}

impl Unit {
    /// Renders the diagnostic for display.
    pub fn to_string(&self) -> (r: String)
        ensures
            r@ == rendered(self@),
    {
        match self {
            Unit::Warning(m) => {
                let r = String::from_str("Warning: ");
                r.concat(m.as_str())
            },
            Unit::Error(m) => {
                let r = String::from_str("Error: ");
                r.concat(m.as_str())
            },
        }
    }
}

/// An append-only log of diagnostics; a request succeeded iff the log is empty.
pub struct DiagnosticHolder {
    pub diagonistic_units: Vec<Unit>,
}

impl View for DiagnosticHolder {
    type V = Seq<UnitView>;

    open spec fn view(&self) -> Seq<UnitView> {
        self.diagonistic_units@.map_values(|u: Unit| u@)
    }
}

impl DiagnosticHolder {
    pub fn new() -> (r: Self)
        ensures
            r@ == Seq::<UnitView>::empty(),
    {
        let r = DiagnosticHolder { diagonistic_units: Vec::new() };
        assert(r@ =~= Seq::<UnitView>::empty());
        r
    }

    pub fn success(&self) -> (r: bool)
        ensures
            r == (self@.len() == 0),
    {
        self.diagonistic_units.len() == 0
    }

    pub fn warning(&mut self, message: &str)
        ensures
            final(self)@ == old(self)@.push(UnitView::Warning(message@)),
    {
        self.diagonistic_units.push(Unit::Warning(message.to_owned()));
        assert(self@ =~= old(self)@.push(UnitView::Warning(message@)));
    }

    pub fn error(&mut self, message: &str)
        ensures
            final(self)@ == old(self)@.push(UnitView::Error(message@)),
    {
        self.diagonistic_units.push(Unit::Error(message.to_owned()));
        assert(self@ =~= old(self)@.push(UnitView::Error(message@)));
    }
}

} // verus!
