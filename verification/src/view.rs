//! Sidebar navigation sections.
use vstd::prelude::*;
use vstd::view::View as _;

verus! {

/// Sidebar navigation sections.
#[derive(Debug, Clone, Copy, PartialEq, Eq, Structural)]
pub enum View {
    Welcome,
    Search,
    Dashboard,
    Company,
    Network,
    Filings,
    Officers,
    Analysis,
    Settings,
}

impl View {
    /// The icon shown for a section.
    pub open spec fn spec_icon(&self) -> Seq<char> {
        match *self {
            View::Welcome => "🏠"@,
            View::Search => "🔍"@,
            View::Dashboard => "📊"@,
            View::Company => "🏢"@,
            View::Network => "🕸"@,
            View::Filings => "📄"@,
            View::Officers => "👤"@,
            View::Analysis => "🤖"@,
            View::Settings => "⚙"@,
        }
    }

    pub fn icon(&self) -> (r: &'static str)
        ensures
            r@ == self.spec_icon(),
    {
        match self {
            View::Welcome => "🏠",
            View::Search => "🔍",
            View::Dashboard => "📊",
            View::Company => "🏢",
            View::Network => "🕸",
            View::Filings => "📄",
            View::Officers => "👤",
            View::Analysis => "🤖",
            View::Settings => "⚙",
        }
    }

    /// The name shown for a section.
    pub open spec fn spec_label(&self) -> Seq<char> {
        match *self {
            View::Welcome => "Home"@,
            View::Search => "Search"@,
            View::Dashboard => "Dashboard"@,
            View::Company => "Company"@,
            View::Network => "Network"@,
            View::Filings => "Filings"@,
            View::Officers => "Officers"@,
            View::Analysis => "AI Analysis"@,
            View::Settings => "Settings"@,
        }
    }

    pub fn label(&self) -> (r: &'static str)
        ensures
            r@ == self.spec_label(),
    {
        match self {
            View::Welcome => "Home",
            View::Search => "Search",
            View::Dashboard => "Dashboard",
            View::Company => "Company",
            View::Network => "Network",
            View::Filings => "Filings",
            View::Officers => "Officers",
            View::Analysis => "AI Analysis",
            View::Settings => "Settings",
        }
    }

    /// The hover text of a section.
    pub open spec fn spec_tooltip(&self) -> Seq<char> {
        match *self {
            View::Welcome => "Welcome & getting started"@,
            View::Search => "Search Companies House"@,
            View::Dashboard => "Investigation overview"@,
            View::Company => "Selected company detail"@,
            View::Network => "Corporate network graph"@,
            View::Filings => "Filing history"@,
            View::Officers => "Officers & directors"@,
            View::Analysis => "AI-powered analysis"@,
            View::Settings => "API keys & configuration"@,
        }
    }

    pub fn tooltip(&self) -> (r: &'static str)
        ensures
            r@ == self.spec_tooltip(),
    {
        match self {
            View::Welcome => "Welcome & getting started",
            View::Search => "Search Companies House",
            View::Dashboard => "Investigation overview",
            View::Company => "Selected company detail",
            View::Network => "Corporate network graph",
            View::Filings => "Filing history",
            View::Officers => "Officers & directors",
            View::Analysis => "AI-powered analysis",
            View::Settings => "API keys & configuration",
        }
    }

    /// Navigation items shown in the sidebar (grouped).
    pub const MAIN_NAV: [View; 3] = [View::Welcome, View::Search, View::Dashboard];
    pub const INVESTIGATION_NAV: [View; 5] = [
        View::Company,
        View::Network,
        View::Filings,
        View::Officers,
        View::Analysis,
    ];
}

} // verus!
