//! The sub-tabs of the request editor and the response viewer, and the method
//! picker of the request editor.
use vstd::prelude::*;
use crate::models::HttpMethod;

verus! {

/// The sub-tabs of the request editor.
#[derive(Clone, Copy, Debug, PartialEq, Eq, Structural)]
pub enum RequestSubTab {
    Params,
    Headers,
    Body,
}

/// The request editor's sub-tabs in display order.
pub open spec fn request_sub_tab_order() -> Seq<RequestSubTab> {
    seq![RequestSubTab::Params, RequestSubTab::Headers, RequestSubTab::Body]
}

/// A request sub-tab's label.
pub open spec fn request_sub_tab_name(t: RequestSubTab) -> Seq<char> {
    match t {
        RequestSubTab::Params => "Params"@,
        RequestSubTab::Headers => "Headers"@,
        RequestSubTab::Body => "Body"@,
    }
}

impl RequestSubTab {
    /// Every sub-tab, in display order.
    pub fn all() -> (r: Vec<RequestSubTab>)
        ensures
            r@ == request_sub_tab_order(),
    {
        let r = vec![RequestSubTab::Params, RequestSubTab::Headers, RequestSubTab::Body];
        assert(r@ =~= request_sub_tab_order());
        r
    }

    /// The sub-tab's label.
    pub fn display_name(&self) -> (r: &'static str)
        ensures
            r@ == request_sub_tab_name(*self),
    {
        match self {
            RequestSubTab::Params => "Params",
            RequestSubTab::Headers => "Headers",
            RequestSubTab::Body => "Body",
        }
    }
}

/// The sub-tabs of the response viewer.
#[derive(Clone, Copy, Debug, PartialEq, Eq, Structural)]
pub enum ResponseSubTab {
    Body,
    Headers,
}

/// A response sub-tab's label.
pub open spec fn response_sub_tab_name(t: ResponseSubTab) -> Seq<char> {
    match t {
        ResponseSubTab::Body => "Body"@,
        ResponseSubTab::Headers => "Headers"@,
    }
}

/// A response sub-tab's position in the tab bar.
pub open spec fn response_sub_tab_index(t: ResponseSubTab) -> usize {
    match t {
        ResponseSubTab::Body => 0,
        ResponseSubTab::Headers => 1,
    }
}

impl ResponseSubTab {
    /// The sub-tab's label.
    pub fn display_name(&self) -> (r: &'static str)
        ensures
            r@ == response_sub_tab_name(*self),
    {
        match self {
            ResponseSubTab::Body => "Body",
            ResponseSubTab::Headers => "Headers",
        }
    }

    /// The sub-tab's position in the tab bar.
    pub fn index(&self) -> (r: usize)
        ensures
            r == response_sub_tab_index(*self),
    {
        match self {
            ResponseSubTab::Body => 0,
            ResponseSubTab::Headers => 1,
        }
    }

    /// The sub-tab at a position of the tab bar; the body for any other position.
    pub fn from_index(index: usize) -> (r: ResponseSubTab)
        ensures
            r == (if index == 1 {
                ResponseSubTab::Headers
            } else {
                ResponseSubTab::Body
            }),
    {
        match index {
            1 => ResponseSubTab::Headers,
            _ => ResponseSubTab::Body,
        }
    }
}

/// The methods in the order of the picker's list.
pub open spec fn method_order() -> Seq<HttpMethod> {
    seq![
        HttpMethod::GET,
        HttpMethod::POST,
        HttpMethod::PUT,
        HttpMethod::PATCH,
        HttpMethod::DELETE,
        HttpMethod::HEAD,
        HttpMethod::OPTIONS,
    ]
}

/// The request editor's method picker: the chosen method and whether its list is
/// open.
#[derive(Clone, Copy, Debug)]
pub struct MethodPicker {
    pub selected_method: HttpMethod,
    pub method_dropdown_open: bool,
}

impl MethodPicker {
    /// A closed picker showing the method.
    pub fn new(method: HttpMethod) -> (r: MethodPicker)
        ensures
            r.selected_method == method,
            !r.method_dropdown_open,
    {
        MethodPicker { selected_method: method, method_dropdown_open: false }
    }

    /// Opens the list if it is closed, closes it if it is open.
    pub fn toggle_method_dropdown(&mut self)
        ensures
            final(self).selected_method == old(self).selected_method,
            final(self).method_dropdown_open == !old(self).method_dropdown_open,
    {
        self.method_dropdown_open = !self.method_dropdown_open;
    }

    /// Chooses the method at a position of the list (a position past the list
    /// keeps the method) and closes the list.
    pub fn select_method_by_index(&mut self, index: usize)
        ensures
            final(self).selected_method == (if index < method_order().len() {
                method_order()[index as int]
            } else {
                old(self).selected_method
            }),
            !final(self).method_dropdown_open,
    {
        match index {
            0 => self.selected_method = HttpMethod::GET,
            1 => self.selected_method = HttpMethod::POST,
            2 => self.selected_method = HttpMethod::PUT,
            3 => self.selected_method = HttpMethod::PATCH,
            4 => self.selected_method = HttpMethod::DELETE,
            5 => self.selected_method = HttpMethod::HEAD,
            6 => self.selected_method = HttpMethod::OPTIONS,
            _ => {},
        }
        self.method_dropdown_open = false;
    }
}

} // verus!
