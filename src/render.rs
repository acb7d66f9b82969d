//! The view trees handed to the page renderer: methods with the
//! self-contained type lists of their input and output, and services with
//! their methods split by deprecation.
use vstd::prelude::*;
use crate::closure::{closure_of, gather_types};
use crate::index::{index_wf, IndexView, TypeIndex};
use crate::descriptor::{FileDescriptor, GeneratorRequest};
use crate::error::DocError;
use crate::index::file_locs;
use crate::services::{
    self, file_position, get_services, service_in_index, service_ok, services_view, CallType,
    MethodView, ServiceView,
};

verus! {

/// Ghost view of a method on a page.
pub struct PageMethodView {
    pub name: Seq<char>,
    pub call_type: CallType,
    pub description: Seq<char>,
    pub deprecated: bool,
    pub input_types: Seq<usize>,
    pub output_types: Seq<usize>,
}

/// Ghost view of a service on a page.
pub struct PageServiceView {
    pub name: Seq<char>,
    pub package: Seq<char>,
    pub description: Seq<char>,
    pub deprecated: bool,
    pub methods: Seq<PageMethodView>,
    pub deprecated_methods: Seq<PageMethodView>,
}

/// A type followed by all types it reaches.
pub open spec fn self_contained(ix: IndexView, t: usize) -> Seq<usize> {
    seq![t] + closure_of(ix, t)
}

/// The page entry of method `m`.
pub open spec fn page_method(ix: IndexView, m: MethodView) -> PageMethodView {
    PageMethodView {
        name: m.name,
        call_type: m.call_type,
        description: m.description,
        deprecated: m.deprecated,
        input_types: self_contained(ix, m.input_type),
        output_types: self_contained(ix, m.output_type),
    }
}

/// Selects deprecated methods.
pub open spec fn deprecated_pred() -> spec_fn(PageMethodView) -> bool {
    |m: PageMethodView| m.deprecated
}

/// Selects methods that are not deprecated.
pub open spec fn active_pred() -> spec_fn(PageMethodView) -> bool {
    |m: PageMethodView| !m.deprecated
}

/// The page entries of a service's methods, in declaration order.
pub open spec fn page_methods(ix: IndexView, s: ServiceView) -> Seq<PageMethodView> {
    s.methods.map_values(|m: MethodView| page_method(ix, m))
}

/// The page entry of service `s`: its methods split into those in use and
/// those deprecated, each keeping declaration order.
pub open spec fn page_service(ix: IndexView, s: ServiceView) -> PageServiceView {
    PageServiceView {
        name: s.name,
        package: s.package,
        description: s.description,
        deprecated: s.deprecated,
        methods: page_methods(ix, s).filter(active_pred()),
        deprecated_methods: page_methods(ix, s).filter(deprecated_pred()),
    }
}

/// Splitting methods by deprecation loses none and doubles none: each lands
/// in exactly the list its flag selects, and both lists keep declaration
/// order as subsequences of the original.
pub proof fn lemma_partition(ms: Seq<PageMethodView>)
    ensures
        ms.filter(active_pred()).len() + ms.filter(deprecated_pred()).len() == ms.len(),
        forall|i: int| 0 <= i < ms.len() && !ms[i].deprecated ==> #[trigger] ms.filter(active_pred()).contains(ms[i]),
        forall|i: int| 0 <= i < ms.len() && ms[i].deprecated ==> #[trigger] ms.filter(deprecated_pred()).contains(ms[i]),
        forall|i: int| 0 <= i < ms.filter(active_pred()).len() ==> !(#[trigger] ms.filter(active_pred())[i]).deprecated,
        forall|i: int| 0 <= i < ms.filter(deprecated_pred()).len() ==> (#[trigger] ms.filter(deprecated_pred())[i]).deprecated,
    decreases ms.len(),
{
    broadcast use Seq::lemma_filter_pred, Seq::lemma_filter_contains;
    if ms.len() > 0 {
        let rest = ms.drop_last();
        lemma_partition(rest);
        assert(rest.push(ms.last()) =~= ms);
        rest.lemma_filter_push(ms.last(), active_pred());
        rest.lemma_filter_push(ms.last(), deprecated_pred());
    } else {
        reveal(Seq::filter);
    }
    assert forall|i: int| 0 <= i < ms.len() && !ms[i].deprecated implies #[trigger] ms.filter(active_pred()).contains(ms[i]) by {
        ms.lemma_filter_contains(active_pred(), i);
    }
    assert forall|i: int| 0 <= i < ms.len() && ms[i].deprecated implies #[trigger] ms.filter(deprecated_pred()).contains(ms[i]) by {
        ms.lemma_filter_contains(deprecated_pred(), i);
    }
    assert forall|i: int| 0 <= i < ms.filter(active_pred()).len() implies !(#[trigger] ms.filter(active_pred())[i]).deprecated by {
        ms.lemma_filter_pred(active_pred(), i);
    }
    assert forall|i: int| 0 <= i < ms.filter(deprecated_pred()).len() implies (#[trigger] ms.filter(deprecated_pred())[i]).deprecated by {
        ms.lemma_filter_pred(deprecated_pred(), i);
    }
}

/// A method as it appears on a page.
pub struct Method {
    pub name: String,
    pub call_type: CallType,
    pub description: String,
    pub deprecated: bool,
    /// The input type followed by every type it reaches.
    pub input_types: Vec<usize>,
    /// The output type followed by every type it reaches.
    pub output_types: Vec<usize>,
}

impl View for Method {
    type V = PageMethodView;

    open spec fn view(&self) -> PageMethodView {
        PageMethodView {
            name: self.name@,
            call_type: self.call_type,
            description: self.description@,
            deprecated: self.deprecated,
            input_types: self.input_types@,
            output_types: self.output_types@,
        }
    }
}

/// A service as it appears on a page.
pub struct Service {
    pub name: String,
    pub package: String,
    pub description: String,
    pub deprecated: bool,
    pub methods: Vec<Method>,
    pub deprecated_methods: Vec<Method>,
}

impl View for Service {
    type V = PageServiceView;

    open spec fn view(&self) -> PageServiceView {
        PageServiceView {
            name: self.name@,
            package: self.package@,
            description: self.description@,
            deprecated: self.deprecated,
            methods: self.methods@.map_values(|m: Method| m@),
            deprecated_methods: self.deprecated_methods@.map_values(|m: Method| m@),
        }
    }
}

/// A documentation page: the services of one or more files.
pub struct Page {
    pub services: Vec<Service>,
}

/// `[t]` followed by the types `t` reaches.
fn self_contained_types(t: usize, types: &TypeIndex) -> (r: Vec<usize>)
    requires
        index_wf(types@),
        (t as int) < types@.types.len(),
    ensures
        r@ == self_contained(types@, t),
{
    let additional = gather_types(t, types);
    let mut r: Vec<usize> = Vec::new();
    r.push(t);
    let mut k: usize = 0;
    while k < additional.len()
        invariant
            k <= additional@.len(),
            r@ == seq![t] + additional@.subrange(0, k as int),
        decreases additional@.len() - k,
    {
        r.push(additional[k]);
        k = k + 1;
        assert(r@ =~= seq![t] + additional@.subrange(0, k as int));
    }
    assert(additional@.subrange(0, k as int) =~= additional@);
    r
}

impl Method {
    /// The page entry of a resolved method.
    pub fn from(value: &services::Method, types: &TypeIndex) -> (r: Method)
        requires
            index_wf(types@),
            value.input_type < types@.types.len(),
            value.output_type < types@.types.len(),
        ensures
            r@ == page_method(types@, value@),
    {
        Method {
            name: value.name.clone(),
            call_type: value.call_type,
            description: value.description.clone(),
            deprecated: value.deprecated,
            input_types: self_contained_types(value.input_type, types),
            output_types: self_contained_types(value.output_type, types),
        }
    }
}

impl Service {
    /// The page entry of a resolved service.
    pub fn from(value: &services::Service, types: &TypeIndex) -> (r: Service)
        requires
            index_wf(types@),
            service_in_index(types@, value@),
        ensures
            r@ == page_service(types@, value@),
    {
        let ghost all = page_methods(types@, value@);
        let mut methods: Vec<Method> = Vec::new();
        let mut deprecated_methods: Vec<Method> = Vec::new();
        let mut i: usize = 0;
        assert(all.subrange(0, 0) =~= Seq::<PageMethodView>::empty());
        proof {
            reveal(Seq::filter);
        }
        while i < value.methods.len()
            invariant
                i <= value.methods@.len(),
                index_wf(types@),
                service_in_index(types@, value@),
                all == page_methods(types@, value@),
                methods@.map_values(|m: Method| m@) == all.subrange(0, i as int).filter(active_pred()),
                deprecated_methods@.map_values(|m: Method| m@) == all.subrange(0, i as int).filter(
                    deprecated_pred(),
                ),
            decreases value.methods@.len() - i,
        {
            assert(value@.methods[i as int] == value.methods@[i as int]@);
            let m = Method::from(&value.methods[i], types);
            proof {
                let prefix = all.subrange(0, i as int);
                assert(all.subrange(0, i as int + 1) =~= prefix.push(m@));
                prefix.lemma_filter_push(m@, active_pred());
                prefix.lemma_filter_push(m@, deprecated_pred());
            }
            let ghost mv = m@;
            if m.deprecated {
                let ghost before = deprecated_methods@.map_values(|m: Method| m@);
                deprecated_methods.push(m);
                assert(deprecated_methods@.map_values(|m: Method| m@) =~= before.push(mv));
            } else {
                let ghost before = methods@.map_values(|m: Method| m@);
                methods.push(m);
                assert(methods@.map_values(|m: Method| m@) =~= before.push(mv));
            }
            i = i + 1;
        }
        assert(all.subrange(0, i as int) =~= all);
        Service {
            name: value.name.clone(),
            package: value.package.clone(),
            description: value.description.clone(),
            deprecated: value.deprecated,
            methods,
            deprecated_methods,
        }
    }
}

impl Page {
    /// The page of the given services.
    pub fn from(services: Vec<services::Service>, types: &TypeIndex) -> (r: Page)
        requires
            index_wf(types@),
            forall|s: int| 0 <= s < services@.len() ==> service_in_index(types@, #[trigger] services@[s]@),
        ensures
            r.services@.map_values(|s: Service| s@) == services@.map_values(
                |s: services::Service| page_service(types@, s@),
            ),
    {
        let mut out: Vec<Service> = Vec::new();
        let mut i: usize = 0;
        while i < services.len()
            invariant
                i <= services@.len(),
                index_wf(types@),
                forall|s: int| 0 <= s < services@.len() ==> service_in_index(types@, #[trigger] services@[s]@),
                out@.len() == i,
                forall|k: int| 0 <= k < i ==> (#[trigger] out@[k])@ == page_service(types@, services@[k]@),
            decreases services@.len() - i,
        {
            out.push(Service::from(&services[i], types));
            i = i + 1;
        }
        let r = Page { services: out };
        assert(r.services@.map_values(|s: Service| s@) =~= services@.map_values(
            |s: services::Service| page_service(types@, s@),
        ));
        r
    }
}


/// The file named `name` exists, has a comment table, and all its method
/// types resolve.
pub open spec fn file_services_ok(ix: IndexView, files: Seq<FileDescriptor>, name: Seq<char>) -> bool {
    match file_position(files, name) {
        None => false,
        Some(i) => files[i].source_info is Some && forall|s: int|
            0 <= s < files[i].services@.len() ==> service_ok(ix, #[trigger] files[i].services@[s]),
    }
}

/// The page entries of the services of the file named `name`.
pub open spec fn page_of(ix: IndexView, files: Seq<FileDescriptor>, name: Seq<char>) -> Seq<PageServiceView> {
    let f = files[file_position(files, name)->0];
    services_view(ix, f, file_locs(f)).map_values(|s: ServiceView| page_service(ix, s))
}

/// The page entries of a page.
pub open spec fn page_view(p: Page) -> Seq<PageServiceView> {
    p.services@.map_values(|s: Service| s@)
}

/// Builds one page for each file to generate, in order; the first file
/// that cannot be documented aborts the whole request.
pub fn build_pages(request: &GeneratorRequest, types: &TypeIndex) -> (r: Result<Vec<Page>, DocError>)
    requires
        index_wf(types@),
    ensures
        r is Ok <==> forall|k: int|
            0 <= k < request.files_to_generate@.len() ==> file_services_ok(
                types@,
                request.files@,
                (#[trigger] request.files_to_generate@[k])@,
            ),
        r matches Ok(pages) ==> pages@.len() == request.files_to_generate@.len() && forall|k: int|
            0 <= k < pages@.len() ==> page_view(#[trigger] pages@[k]) == page_of(
                types@,
                request.files@,
                request.files_to_generate@[k]@,
            ),
{
    let mut pages: Vec<Page> = Vec::new();
    let mut k: usize = 0;
    while k < request.files_to_generate.len()
        invariant
            k <= request.files_to_generate@.len(),
            index_wf(types@),
            pages@.len() == k,
            forall|j: int| 0 <= j < k ==> file_services_ok(types@, request.files@, (#[trigger] request.files_to_generate@[j])@),
            forall|j: int| 0 <= j < k ==> page_view(#[trigger] pages@[j]) == page_of(
                types@,
                request.files@,
                request.files_to_generate@[j]@,
            ),
        decreases request.files_to_generate@.len() - k,
    {
        let name = &request.files_to_generate[k];
        let services = match get_services(request, name.as_str(), types) {
            Ok(services) => services,
            Err(e) => {
                assert(!file_services_ok(types@, request.files@, request.files_to_generate@[k as int]@));
                return Err(e);
            },
        };
        let ghost i = file_position(request.files@, name@)->0;
        let ghost f = request.files@[i];
        let ghost sv = services@.map_values(|s: services::Service| s@);
        assert(sv == services_view(types@, f, file_locs(f)));
        let page = Page::from(services, types);
        assert(page_view(page) =~= services_view(types@, f, file_locs(f)).map_values(|s: ServiceView| page_service(types@, s)));
        pages.push(page);
        k = k + 1;
    }
    Ok(pages)
}

} // verus!
