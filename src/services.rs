//! Services and methods, with method types resolved against the index.
use vstd::prelude::*;
use crate::as_i32;
use crate::comments::{get_description, leading_of, Location, SourceInfo};
use crate::descriptor::{FileDescriptor, GeneratorRequest, MethodDescriptor, ServiceDescriptor};
use crate::error::DocError;
use crate::index::{find_package, index_wf, package_position, IndexView, TypeIndex};
use crate::names::{qualified_view, FullyQualifiedTypeName, QualifiedNameView};
use crate::proto::{extend_path, path_of, str_equal};

verus! {

// ----- resolution -----
/// `k` is the first member of package `p` whose node is named `name`.
pub open spec fn is_first_member(ix: IndexView, p: int, name: Seq<char>, k: int) -> bool {
    &&& 0 <= k < ix.packages[p].members.len()
    &&& ix.types[ix.packages[p].members[k] as int].name() == name
    &&& forall|j: int| 0 <= j < k ==> ix.types[ix.packages[p].members[j] as int].name() != name
}

/// The arena position of the node that `q` names: the first node of that
/// name in the first bucket of that package.
pub open spec fn lookup_type(ix: IndexView, q: QualifiedNameView) -> Option<usize> {
    match package_position(ix.packages, q.package) {
        None => None,
        Some(p) => if exists|k: int| is_first_member(ix, p, q.name, k) {
            Some(ix.packages[p].members[choose|k: int| is_first_member(ix, p, q.name, k)])
        } else {
            None
        },
    }
}

/// What a type reference resolves to.
pub enum Resolution {
    Found(usize),
    Unresolved,
    Malformed,
}

/// Resolves a type reference against the index.
pub open spec fn resolve(ix: IndexView, reference: Seq<char>) -> Resolution {
    match qualified_view(reference) {
        None => Resolution::Malformed,
        Some(q) => match lookup_type(ix, q) {
            Some(t) => Resolution::Found(t),
            None => Resolution::Unresolved,
        },
    }
}

/// `e` is the error that a failed resolution of `reference` reports.
pub open spec fn resolution_error(res: Resolution, reference: Seq<char>, e: DocError) -> bool {
    match res {
        Resolution::Found(_) => false,
        Resolution::Unresolved => e matches DocError::UnresolvedTypeReference(t) && t@ == reference,
        Resolution::Malformed => e matches DocError::MalformedTypeReference(t) && t@ == reference,
    }
}

/// Looks up the node that a qualified type reference names.
pub fn resolve_type(types: &TypeIndex, reference: &str) -> (r: Result<usize, DocError>)
    requires
        index_wf(types@),
    ensures
        match r {
            Ok(t) => resolve(types@, reference@) == Resolution::Found(t) && t < types@.types.len(),
            Err(e) => resolution_error(resolve(types@, reference@), reference@, e),
        },
{
    let name = match FullyQualifiedTypeName::parse(reference) {
        Ok(name) => name,
        Err(e) => return Err(e),
    };
    let ghost ix = types@;
    let p = match find_package(&types.packages, &name.package) {
        Some(p) => p,
        None => return Err(DocError::UnresolvedTypeReference(String::from_str(reference))),
    };
    let members = &types.packages[p].members;
    assert(members@ == ix.packages[p as int].members);
    let mut k: usize = 0;
    while k < members.len()
        invariant
            k <= members@.len(),
            ix == types@,
            index_wf(ix),
            p < ix.packages.len(),
            package_position(ix.packages, name.package@) == Some(p as int),
            qualified_view(reference@) == Some(name@),
            members@ == ix.packages[p as int].members,
            forall|j: int| 0 <= j < k ==> ix.types[ix.packages[p as int].members[j] as int].name() != name.name@,
        decreases members@.len() - k,
    {
        let at = members[k];
        assert(ix.packages[p as int].members[k as int] < ix.types.len());
        assert(ix.types[at as int] == types.types@[at as int]@);
        if types.types[at].has_name(name.name.as_str()) {
            assert(is_first_member(ix, p as int, name.name@, k as int));
            assert forall|k2: int| is_first_member(ix, p as int, name.name@, k2) implies k2 == k by {
                if k2 < k {
                } else if k2 > k {
                    assert(ix.types[ix.packages[p as int].members[k as int] as int].name() != name.name@);
                }
            }
            assert(exists|k2: int| is_first_member(ix, p as int, name.name@, k2));
            assert((choose|k2: int| is_first_member(ix, p as int, name.name@, k2)) == k);
            assert(name@.package == name.package@ && name@.name == name.name@);
            assert(lookup_type(ix, name@) == Some(at));
            return Ok(at);
        }
        k = k + 1;
    }
    assert(!exists|k2: int| is_first_member(ix, p as int, name.name@, k2));
    Err(DocError::UnresolvedTypeReference(String::from_str(reference)))
}


// ----- methods -----
/// Streaming call type of a method.
#[derive(Debug, Clone, Copy, PartialEq, Eq, Structural)]
pub enum CallType {
    Unary,
    ServerStreaming,
    ClientStreaming,
    BidiStreaming,
}

/// The call type that the two streaming flags select.
pub open spec fn call_type_of(server_streaming: bool, client_streaming: bool) -> CallType {
    match (server_streaming, client_streaming) {
        (true, true) => CallType::BidiStreaming,
        (true, false) => CallType::ServerStreaming,
        (false, true) => CallType::ClientStreaming,
        (false, false) => CallType::Unary,
    }
}

/// How a call type is written in documentation.
pub open spec fn call_type_text(c: CallType) -> Seq<char> {
    match c {
        CallType::Unary => "unary"@,
        CallType::ServerStreaming => "server streaming"@,
        CallType::ClientStreaming => "client streaming"@,
        CallType::BidiStreaming => "bidi streaming"@,
    }
}

impl CallType {
    /// Classifies a method by its two streaming flags.
    pub fn from(method: &MethodDescriptor) -> (r: CallType)
        ensures
            r == call_type_of(method.server_streaming, method.client_streaming),
    {
        match (method.server_streaming, method.client_streaming) {
            (true, true) => CallType::BidiStreaming,
            (true, false) => CallType::ServerStreaming,
            (false, true) => CallType::ClientStreaming,
            (false, false) => CallType::Unary,
        }
    }

    /// The text a call type is shown by.
    pub fn as_str(&self) -> (r: &'static str)
        ensures
            r@ == call_type_text(*self),
    {
        match self {
            CallType::Unary => "unary",
            CallType::ServerStreaming => "server streaming",
            CallType::ClientStreaming => "client streaming",
            CallType::BidiStreaming => "bidi streaming",
        }
    }
}

/// An unset `deprecated` option means not deprecated.
pub open spec fn deprecated_flag(o: Option<bool>) -> bool {
    match o {
        Some(b) => b,
        None => false,
    }
}

/// Ghost view of a method.
pub struct MethodView {
    pub name: Seq<char>,
    pub call_type: CallType,
    pub description: Seq<char>,
    pub deprecated: bool,
    pub input_type: usize,
    pub output_type: usize,
}

/// Service method type; its input and output types are arena positions in
/// the type index.
pub struct Method {
    pub name: String,
    pub call_type: CallType,
    pub description: String,
    pub deprecated: bool,
    pub input_type: usize,
    pub output_type: usize,
}

impl View for Method {
    type V = MethodView;

    open spec fn view(&self) -> MethodView {
        MethodView {
            name: self.name@,
            call_type: self.call_type,
            description: self.description@,
            deprecated: self.deprecated,
            input_type: self.input_type,
            output_type: self.output_type,
        }
    }
}

/// Both types of method `m` resolve.
pub open spec fn method_ok(ix: IndexView, m: MethodDescriptor) -> bool {
    resolve(ix, m.input_type@) is Found && resolve(ix, m.output_type@) is Found
}

/// `e` is what building method `m` reports: the failure of its input type,
/// or else that of its output type.
pub open spec fn method_error(ix: IndexView, m: MethodDescriptor, e: DocError) -> bool {
    if !(resolve(ix, m.input_type@) is Found) {
        resolution_error(resolve(ix, m.input_type@), m.input_type@, e)
    } else {
        resolution_error(resolve(ix, m.output_type@), m.output_type@, e)
    }
}

/// The method built from the `idx`-th method of the `service_idx`-th
/// service of a file.
pub open spec fn method_view(ix: IndexView, m: MethodDescriptor, service_idx: i32, idx: i32, locs: Seq<Location>) -> MethodView {
    MethodView {
        name: m.name@,
        call_type: call_type_of(m.server_streaming, m.client_streaming),
        description: leading_of(locs, seq![6i32, service_idx, 2i32, idx]),
        deprecated: deprecated_flag(m.deprecated),
        input_type: resolve(ix, m.input_type@)->Found_0,
        output_type: resolve(ix, m.output_type@)->Found_0,
    }
}

impl Method {
    /// Construct the `idx`-th method of the `service_idx`-th service.
    pub fn from(
        method: &MethodDescriptor,
        types: &TypeIndex,
        service_idx: i32,
        idx: i32,
        info: &SourceInfo,
    ) -> (r: Result<Method, DocError>)
        requires
            index_wf(types@),
        ensures
            r is Ok <==> method_ok(types@, *method),
            r matches Ok(m) ==> m@ == method_view(types@, *method, service_idx, idx, info.location@)
                && m.input_type < types@.types.len() && m.output_type < types@.types.len(),
            r matches Err(e) ==> method_error(types@, *method, e),
    {
        let path = path_of(6, service_idx);
        let path = extend_path(&path, 2, idx);
        assert(path@ =~= seq![6i32, service_idx, 2i32, idx]);
        let description = get_description(info, &path);
        let input_type = match resolve_type(types, method.input_type.as_str()) {
            Ok(t) => t,
            Err(e) => return Err(e),
        };
        let output_type = match resolve_type(types, method.output_type.as_str()) {
            Ok(t) => t,
            Err(e) => return Err(e),
        };
        let deprecated = match method.deprecated {
            Some(b) => b,
            None => false,
        };
        Ok(Method {
            name: method.name.clone(),
            call_type: CallType::from(method),
            description,
            deprecated,
            input_type,
            output_type,
        })
    }
}

// ----- services -----
/// Ghost view of a service.
pub struct ServiceView {
    pub name: Seq<char>,
    pub package: Seq<char>,
    pub description: Seq<char>,
    pub deprecated: bool,
    pub methods: Seq<MethodView>,
}

/// gRPC service type.
pub struct Service {
    pub name: String,
    pub package: String,
    pub description: String,
    pub deprecated: bool,
    pub methods: Vec<Method>,
}

impl View for Service {
    type V = ServiceView;

    open spec fn view(&self) -> ServiceView {
        ServiceView {
            name: self.name@,
            package: self.package@,
            description: self.description@,
            deprecated: self.deprecated,
            methods: self.methods@.map_values(|m: Method| m@),
        }
    }
}

/// Every method of service `s` resolves.
pub open spec fn service_ok(ix: IndexView, s: ServiceDescriptor) -> bool {
    forall|j: int| 0 <= j < s.methods@.len() ==> method_ok(ix, #[trigger] s.methods@[j])
}

/// The service built from the `idx`-th service of file `f`, its methods in
/// declaration order.
pub open spec fn service_view(ix: IndexView, f: FileDescriptor, s: ServiceDescriptor, idx: i32, locs: Seq<Location>) -> ServiceView {
    ServiceView {
        name: s.name@,
        package: f.package@,
        description: leading_of(locs, seq![6i32, idx]),
        deprecated: deprecated_flag(s.deprecated),
        methods: Seq::new(
            s.methods@.len(),
            |j: int| method_view(ix, s.methods@[j], idx, #[verifier::truncate] (j as i32), locs),
        ),
    }
}

/// Every method input and output of `s` addresses a node of the arena.
pub open spec fn service_in_index(ix: IndexView, s: ServiceView) -> bool {
    forall|j: int| 0 <= j < s.methods.len() ==> (#[trigger] s.methods[j]).input_type < ix.types.len()
        && s.methods[j].output_type < ix.types.len()
}

impl Service {
    /// Construct the `idx`-th service of file `proto`.
    pub fn from(
        proto: &FileDescriptor,
        service: &ServiceDescriptor,
        types: &TypeIndex,
        idx: i32,
        info: &SourceInfo,
    ) -> (r: Result<Service, DocError>)
        requires
            index_wf(types@),
        ensures
            r is Ok <==> service_ok(types@, *service),
            r matches Ok(s) ==> s@ == service_view(types@, *proto, *service, idx, info.location@)
                && service_in_index(types@, s@),
            r matches Err(e) ==> exists|j: int|
                0 <= j < service.methods@.len() && method_error(types@, #[trigger] service.methods@[j], e),
    {
        let path = path_of(6, idx);
        let description = get_description(info, &path);
        let deprecated = match service.deprecated {
            Some(b) => b,
            None => false,
        };
        let mut methods: Vec<Method> = Vec::new();
        let mut j: usize = 0;
        while j < service.methods.len()
            invariant
                j <= service.methods@.len(),
                index_wf(types@),
                methods@.len() == j,
                forall|k: int| 0 <= k < j ==> method_ok(types@, #[trigger] service.methods@[k]),
                forall|k: int| 0 <= k < j ==> (#[trigger] methods@[k])@ == method_view(
                    types@,
                    service.methods@[k],
                    idx,
                    #[verifier::truncate] (k as i32),
                    info.location@,
                ),
                forall|k: int| 0 <= k < j ==> (#[trigger] methods@[k]).input_type < types@.types.len()
                    && methods@[k].output_type < types@.types.len(),
            decreases service.methods@.len() - j,
        {
            match Method::from(&service.methods[j], types, idx, as_i32(j), info) {
                Ok(m) => methods.push(m),
                Err(e) => return Err(e),
            }
            j = j + 1;
        }
        let r = Service {
            name: service.name.clone(),
            package: proto.package.clone(),
            description,
            deprecated,
            methods,
        };
        assert(r@.methods =~= service_view(types@, *proto, *service, idx, info.location@).methods);
        Ok(r)
    }
}


// ----- files -----
/// `i` is the first file named `name`.
pub open spec fn is_first_file(files: Seq<FileDescriptor>, name: Seq<char>, i: int) -> bool {
    &&& 0 <= i < files.len()
    &&& files[i].name@ == name
    &&& forall|k: int| 0 <= k < i ==> files[k].name@ != name
}

/// The position of the first file named `name`.
pub open spec fn file_position(files: Seq<FileDescriptor>, name: Seq<char>) -> Option<int> {
    if exists|i: int| is_first_file(files, name, i) {
        Some(choose|i: int| is_first_file(files, name, i))
    } else {
        None
    }
}

/// The position of the first file named `name`, searched linearly.
pub fn find_file(files: &Vec<FileDescriptor>, name: &str) -> (r: Option<usize>)
    ensures
        match r {
            Some(i) => file_position(files@, name@) == Some(i as int) && i < files@.len(),
            None => file_position(files@, name@) is None,
        },
{
    let mut i: usize = 0;
    while i < files.len()
        invariant
            i <= files@.len(),
            forall|k: int| 0 <= k < i ==> files@[k].name@ != name@,
        decreases files@.len() - i,
    {
        if str_equal(files[i].name.as_str(), name) {
            assert(is_first_file(files@, name@, i as int));
            assert forall|i2: int| is_first_file(files@, name@, i2) implies i2 == i by {
                if i2 < i {
                } else if i2 > i {
                    assert(files@[i as int].name@ != name@);
                }
            }
            return Some(i);
        }
        i = i + 1;
    }
    assert(!exists|i2: int| is_first_file(files@, name@, i2));
    None
}

/// The services of file `f`, built in declaration order.
pub open spec fn services_view(ix: IndexView, f: FileDescriptor, locs: Seq<Location>) -> Seq<ServiceView> {
    Seq::new(
        f.services@.len(),
        |s: int| service_view(ix, f, f.services@[s], #[verifier::truncate] (s as i32), locs),
    )
}

/// Construct all `Service`s of file descriptor `name` in `request`.
pub fn get_services(request: &GeneratorRequest, name: &str, types: &TypeIndex) -> (r: Result<Vec<Service>, DocError>)
    requires
        index_wf(types@),
    ensures
        match file_position(request.files@, name@) {
            None => r matches Err(DocError::FileNotFound(t)) && t@ == name@,
            Some(i) => match request.files@[i].source_info {
                None => r matches Err(DocError::MissingSourceInfo),
                Some(info) => {
                    let f = request.files@[i];
                    &&& r is Ok <==> forall|s: int| 0 <= s < f.services@.len() ==> service_ok(types@, #[trigger] f.services@[s])
                    &&& r matches Ok(v) ==> v@.map_values(|s: Service| s@) == services_view(types@, f, info.location@)
                    &&& r matches Ok(v) ==> forall|s: int| 0 <= s < v@.len() ==> service_in_index(types@, #[trigger] v@[s]@)
                    &&& r matches Err(e) ==> (e is UnresolvedTypeReference || e is MalformedTypeReference)
                },
            },
        },
{
    let ghost files = request.files@;
    let at = match find_file(&request.files, name) {
        Some(at) => at,
        None => return Err(DocError::FileNotFound(String::from_str(name))),
    };
    let proto = &request.files[at];
    let info = match &proto.source_info {
        Some(info) => info,
        None => return Err(DocError::MissingSourceInfo),
    };
    let mut services: Vec<Service> = Vec::new();
    let mut s: usize = 0;
    while s < proto.services.len()
        invariant
            s <= proto.services@.len(),
            index_wf(types@),
            file_position(request.files@, name@) == Some(at as int),
            at < request.files@.len(),
            *proto == request.files@[at as int],
            proto.source_info == Some(*info),
            services@.len() == s,
            forall|k: int| 0 <= k < s ==> service_ok(types@, #[trigger] proto.services@[k]),
            forall|k: int| 0 <= k < s ==> (#[trigger] services@[k])@ == service_view(
                types@,
                *proto,
                proto.services@[k],
                #[verifier::truncate] (k as i32),
                info.location@,
            ),
            forall|k: int| 0 <= k < s ==> service_in_index(types@, (#[trigger] services@[k])@),
        decreases proto.services@.len() - s,
    {
        match Service::from(proto, &proto.services[s], types, as_i32(s), info) {
            Ok(svc) => services.push(svc),
            Err(e) => {
                let ghost j = choose|j: int|
                    0 <= j < proto.services@[s as int].methods@.len() && method_error(
                        types@,
                        #[trigger] proto.services@[s as int].methods@[j],
                        e,
                    );
                assert(!method_ok(types@, proto.services@[s as int].methods@[j]));
                assert(!service_ok(types@, proto.services@[s as int]));
                assert(e is UnresolvedTypeReference || e is MalformedTypeReference);
                return Err(e);
            },
        }
        s = s + 1;
    }
    assert(services@.map_values(|s: Service| s@) =~= services_view(types@, *proto, info.location@));
    Ok(services)
}

} // verus!
