//! Inference with TensorFlow Lite: the life of a model and of its interpreter.

use crate::backend::{error_of, opt_str, outcome_of, BackendCall, BackendState, DetectorBackend};
use crate::detection::{
    assemble_detections, detection_bytes, lemma_buffer_shows_the_tensors, may_be_reported,
    EXPECTED_OUTPUT_BYTES,
};
use crate::error::{Result, SidecarError};
use crate::text::{decimal, decimal_text, joined, opt_text, same_text};
use edgefirst_tflite::{Delegate, Error, Interpreter, InterpreterBuilder, Library, Model};
use vstd::prelude::*;
use vstd::string::*;

verus! {

/// `edgefirst_tflite::Library`, a shared library that was loaded.
#[verifier::external_type_specification]
#[verifier::external_body]
pub struct ExLibrary(edgefirst_tflite::Library);

/// `edgefirst_tflite::Model`.
#[verifier::external_type_specification]
#[verifier::external_body]
pub struct ExModel<'lib>(edgefirst_tflite::Model<'lib>);

/// `edgefirst_tflite::Delegate`.
#[verifier::external_type_specification]
#[verifier::external_body]
pub struct ExDelegate(edgefirst_tflite::Delegate);

/// `edgefirst_tflite::InterpreterBuilder`.
#[verifier::external_type_specification]
#[verifier::external_body]
pub struct ExInterpreterBuilder<'lib>(edgefirst_tflite::InterpreterBuilder<'lib>);

/// `edgefirst_tflite::Interpreter`, which holds the input and output tensors.
#[verifier::external_type_specification]
#[verifier::external_body]
pub struct ExInterpreter<'lib>(edgefirst_tflite::Interpreter<'lib>);

/// `edgefirst_tflite::Error`.
#[verifier::external_type_specification]
#[verifier::external_body]
pub struct ExTfliteError(edgefirst_tflite::Error);

/// What an interpreter is made with.
#[verifier::ext_equal]
pub struct Setup {
    /// The shared library that it comes from.
    pub library: Library,
    /// Number of CPU threads, where it was set.
    pub threads: Option<int>,
    /// The paths of the delegates, in the order in which they were added.
    pub delegates: Seq<Seq<char>>,
}

/// The tensors of an interpreter and what it was made from. Where something cannot be had,
/// the text of the error stands in its place.
pub struct Engine {
    pub setup: Setup,
    /// The bytes of the model.
    pub model: Seq<u8>,
    /// The sizes of the input tensors in bytes.
    pub input_sizes: std::result::Result<Seq<usize>, Seq<char>>,
    /// How many bytes can be written to the first input tensor.
    pub input_room: std::result::Result<usize, Seq<char>>,
    /// What was last written to the first input tensor.
    pub input: Seq<u8>,
    /// What had last been written to the first input tensor each time that the interpreter was
    /// asked to run, and the error where it did not, the first time first.
    pub runs: Seq<(Seq<u8>, Option<Error>)>,
    /// The elements of the output tensors, four bytes each.
    pub outputs: std::result::Result<
        Seq<std::result::Result<Seq<u32>, Seq<char>>>,
        Seq<char>,
    >,
}

/// Whether each function was found that models are made with and interpreters are set up with.
#[derive(Clone, Copy, Debug, PartialEq, Eq, Structural)]
pub struct SetupApi {
    pub model_create: bool,
    pub model_delete: bool,
    pub options_create: bool,
    pub options_delete: bool,
    pub set_num_threads: bool,
    pub add_delegate: bool,
}

/// Whether each function of an interpreter was found.
#[derive(Clone, Copy, Debug, PartialEq, Eq, Structural)]
pub struct InterpreterApi {
    pub create: bool,
    pub delete: bool,
    pub allocate_tensors: bool,
    pub invoke: bool,
    pub input_count: bool,
    pub input: bool,
    pub output_count: bool,
    pub output: bool,
}

/// Whether each function of a tensor was found.
#[derive(Clone, Copy, Debug, PartialEq, Eq, Structural)]
pub struct TensorApi {
    pub name: bool,
    pub num_dims: bool,
    pub dim: bool,
    pub byte_size: bool,
    pub data: bool,
}

/// Which functions of the TensorFlow Lite C API were found in a shared library. A call of one
/// that was not found panics.
#[derive(Clone, Copy, Debug, PartialEq, Eq, Structural)]
pub struct CApi {
    pub setup: SetupApi,
    pub interpreter: InterpreterApi,
    pub tensor: TensorApi,
}

/// Which functions were found in a library.
pub uninterp spec fn c_api(library: Library) -> CApi;

/// Whether models can be made, and dropped.
pub open spec fn makes_models(api: CApi) -> bool {
    api.setup.model_create && api.setup.model_delete
}

/// Whether builders of interpreters can be made, and dropped.
pub open spec fn makes_builders(api: CApi) -> bool {
    api.setup.options_create && api.setup.options_delete
}

/// Whether interpreters can be made, and dropped.
pub open spec fn makes_interpreters(api: CApi) -> bool {
    api.interpreter.create && api.interpreter.delete && api.interpreter.allocate_tensors
}

/// Whether the sizes of the input tensors can be asked for.
pub open spec fn sizes_inputs(api: CApi) -> bool {
    api.interpreter.input_count && api.interpreter.input && api.tensor.byte_size
}

/// Whether the elements of a tensor can be reached. The name is asked for where a tensor has no
/// dimensions.
pub open spec fn reaches_elements(api: CApi) -> bool {
    api.tensor.name && api.tensor.num_dims && api.tensor.dim && api.tensor.byte_size
        && api.tensor.data
}

/// Whether input tensors can be written.
pub open spec fn writes_inputs(api: CApi) -> bool {
    api.interpreter.input_count && api.interpreter.input && reaches_elements(api)
}

/// Whether output tensors can be read.
pub open spec fn reads_outputs(api: CApi) -> bool {
    api.interpreter.output_count && api.interpreter.output && reaches_elements(api)
}

/// The bytes that a model was made from.
pub uninterp spec fn model_data(model: Model<'static>) -> Seq<u8>;

/// The path that a delegate was loaded from.
pub uninterp spec fn delegate_path(delegate: Delegate) -> Seq<char>;

/// What the interpreters of a builder are made with.
pub uninterp spec fn builder_setup(builder: InterpreterBuilder<'static>) -> Setup;

/// The tensors of an interpreter and what it was made from.
pub uninterp spec fn engine(interpreter: Interpreter<'static>) -> Engine;

/// Whether an error is one that `Model::from_bytes` can give for those bytes.
pub uninterp spec fn can_refuse_model(library: Library, data: Seq<u8>, error: Error) -> bool;

/// Whether an error is one that `Interpreter::builder` can give.
pub uninterp spec fn can_refuse_builder(library: Library, error: Error) -> bool;

/// Whether an error is one that `Delegate::load` can give for that path.
pub uninterp spec fn can_refuse_delegate(path: Seq<char>, error: Error) -> bool;

/// Whether an error is one that `InterpreterBuilder::build` can give for a model with those
/// bytes.
pub uninterp spec fn can_refuse_build(setup: Setup, model: Seq<u8>, error: Error) -> bool;

/// What the alternate debug format of the error says that `TensorMut::copy_from_slice` gives
/// where a tensor has room for so many elements and is to be given so many.
pub uninterp spec fn misfit_text(room: usize, given: usize) -> Seq<char>;

/// What the alternate debug format of an error says.
pub uninterp spec fn tflite_error_text(error: Error) -> Seq<char>;

/// The sizes of tensors, or the text of the error.
pub open spec fn sizes_or_error(
    sizes: std::result::Result<Vec<usize>, Error>,
) -> std::result::Result<Seq<usize>, Seq<char>> {
    match sizes {
        Ok(sizes) => Ok(sizes@),
        Err(error) => Err(tflite_error_text(error)),
    }
}

/// The elements of a tensor, or the text of the error.
pub open spec fn elements_or_error(
    tensor: std::result::Result<Vec<u32>, Error>,
) -> std::result::Result<Seq<u32>, Seq<char>> {
    match tensor {
        Ok(elements) => Ok(elements@),
        Err(error) => Err(tflite_error_text(error)),
    }
}

/// The elements of tensors, or the text of the error.
pub open spec fn tensors_or_error(
    tensors: std::result::Result<Vec<std::result::Result<Vec<u32>, Error>>, Error>,
) -> std::result::Result<Seq<std::result::Result<Seq<u32>, Seq<char>>>, Seq<char>> {
    match tensors {
        Ok(tensors) => Ok(tensors@.map_values(|tensor| elements_or_error(tensor))),
        Err(error) => Err(tflite_error_text(error)),
    }
}

/// The alternate debug format of `edgefirst_tflite::Error`; the contract names the text.
#[verifier::external_body]
fn debug_text(error: &Error) -> (r: String)
    ensures
        r@ == tflite_error_text(*error),
{
    format!("{error:#?}")
}

/// `Library::as_sys`: the fields that tell whether the functions of models and of options were
/// found, each as a flag.
#[verifier::external_body]
fn found_setup_functions(library: &Library) -> (r: SetupApi)
    ensures
        r == c_api(*library).setup,
{
    let api = library.as_sys();
    SetupApi {
        model_create: api.TfLiteModelCreate.is_ok(),
        model_delete: api.TfLiteModelDelete.is_ok(),
        options_create: api.TfLiteInterpreterOptionsCreate.is_ok(),
        options_delete: api.TfLiteInterpreterOptionsDelete.is_ok(),
        set_num_threads: api.TfLiteInterpreterOptionsSetNumThreads.is_ok(),
        add_delegate: api.TfLiteInterpreterOptionsAddDelegate.is_ok(),
    }
}

/// `Library::as_sys`: the fields that tell whether the functions of interpreters were found,
/// each as a flag.
#[verifier::external_body]
fn found_interpreter_functions(library: &Library) -> (r: InterpreterApi)
    ensures
        r == c_api(*library).interpreter,
{
    let api = library.as_sys();
    InterpreterApi {
        create: api.TfLiteInterpreterCreate.is_ok(),
        delete: api.TfLiteInterpreterDelete.is_ok(),
        allocate_tensors: api.TfLiteInterpreterAllocateTensors.is_ok(),
        invoke: api.TfLiteInterpreterInvoke.is_ok(),
        input_count: api.TfLiteInterpreterGetInputTensorCount.is_ok(),
        input: api.TfLiteInterpreterGetInputTensor.is_ok(),
        output_count: api.TfLiteInterpreterGetOutputTensorCount.is_ok(),
        output: api.TfLiteInterpreterGetOutputTensor.is_ok(),
    }
}

/// `Library::as_sys`: the fields that tell whether the functions of tensors were found, each as
/// a flag.
#[verifier::external_body]
fn found_tensor_functions(library: &Library) -> (r: TensorApi)
    ensures
        r == c_api(*library).tensor,
{
    let api = library.as_sys();
    TensorApi {
        name: api.TfLiteTensorName.is_ok(),
        num_dims: api.TfLiteTensorNumDims.is_ok(),
        dim: api.TfLiteTensorDim.is_ok(),
        byte_size: api.TfLiteTensorByteSize.is_ok(),
        data: api.TfLiteTensorData.is_ok(),
    }
}

/// Which functions were found in a library.
pub fn found_functions(library: &Library) -> (r: CApi)
    ensures
        r == c_api(*library),
{
    CApi {
        setup: found_setup_functions(library),
        interpreter: found_interpreter_functions(library),
        tensor: found_tensor_functions(library),
    }
}

/// `Model::from_bytes`: a model with those bytes, or an error. Which bytes are a model is not
/// claimed.
#[verifier::external_body]
fn model_from_bytes(library: &'static Library, data: Vec<u8>) -> (r: std::result::Result<
    Model<'static>,
    Error,
>)
    requires
        makes_models(c_api(*library)),
    ensures
        r matches Ok(model) ==> model_data(model) == data@,
        r matches Err(error) ==> can_refuse_model(*library, data@, error),
{
    Model::from_bytes(library, data)
}

/// `Interpreter::builder`: a builder with nothing set, or an error.
#[verifier::external_body]
fn new_builder(library: &'static Library) -> (r: std::result::Result<
    InterpreterBuilder<'static>,
    Error,
>)
    requires
        makes_builders(c_api(*library)),
    ensures
        r matches Ok(builder) ==> builder_setup(builder) == (Setup {
            library: *library,
            threads: None,
            delegates: Seq::empty(),
        }),
        r matches Err(error) ==> can_refuse_builder(*library, error),
{
    Interpreter::builder(library)
}

/// `InterpreterBuilder::num_threads`: sets the number of CPU threads.
#[verifier::external_body]
fn with_threads(builder: InterpreterBuilder<'static>, threads: i32) -> (r: InterpreterBuilder<
    'static,
>)
    requires
        c_api(builder_setup(builder).library).setup.set_num_threads,
    ensures
        builder_setup(r) == (Setup { threads: Some(threads as int), ..builder_setup(builder) }),
{
    builder.num_threads(threads)
}

/// `Delegate::load`: a delegate from the shared library at that path, or an error. Which it
/// is depends on the file and is not claimed.
#[verifier::external_body]
fn load_delegate(path: &str) -> (r: std::result::Result<Delegate, Error>)
    ensures
        r matches Ok(delegate) ==> delegate_path(delegate) == path@,
        r matches Err(error) ==> can_refuse_delegate(path@, error),
{
    Delegate::load(std::path::Path::new(path))
}

/// `InterpreterBuilder::delegate`: adds a delegate.
#[verifier::external_body]
fn with_delegate(builder: InterpreterBuilder<'static>, delegate: Delegate) -> (r:
    InterpreterBuilder<'static>)
    requires
        c_api(builder_setup(builder).library).setup.add_delegate,
    ensures
        builder_setup(r) == (Setup {
            delegates: builder_setup(builder).delegates.push(delegate_path(delegate)),
            ..builder_setup(builder)
        }),
{
    builder.delegate(delegate)
}

/// Whether an interpreter was just made for a model with those bytes: it has not run.
pub open spec fn is_new_engine(engine: Engine, setup: Setup, model: Seq<u8>) -> bool {
    &&& engine.setup == setup
    &&& engine.model == model
    &&& engine.runs == Seq::<(Seq<u8>, Option<Error>)>::empty()
}

/// `InterpreterBuilder::build`: an interpreter for the model with what the builder was given,
/// or an error, which depends on the model and the native runtime.
#[verifier::external_body]
fn build(builder: InterpreterBuilder<'static>, model: &Model<'static>) -> (r: std::result::Result<
    Interpreter<'static>,
    Error,
>)
    requires
        makes_builders(c_api(builder_setup(builder).library)),
        makes_interpreters(c_api(builder_setup(builder).library)),
    ensures
        r matches Ok(interpreter) ==> is_new_engine(
            engine(interpreter),
            builder_setup(builder),
            model_data(*model),
        ),
        r matches Err(error) ==> can_refuse_build(
            builder_setup(builder),
            model_data(*model),
            error,
        ),
{
    builder.build(model)
}

/// `Interpreter::inputs_mut` and `TensorMut::byte_size` of each: the sizes of the input
/// tensors, or an error. Nothing is changed. The native runtime is taken to report numbers of
/// tensors that are not negative, as its C API documents.
#[verifier::external_body]
fn input_sizes(interpreter: &mut Interpreter<'static>) -> (r: std::result::Result<
    Vec<usize>,
    Error,
>)
    requires
        sizes_inputs(c_api(engine(*old(interpreter)).setup.library)),
    ensures
        sizes_or_error(r) == engine(*old(interpreter)).input_sizes,
        engine(*final(interpreter)) == engine(*old(interpreter)),
{
    Ok(interpreter.inputs_mut()?.iter().map(|tensor| tensor.byte_size()).collect())
}

/// Why so many bytes cannot be written to the first input tensor, given its room.
pub open spec fn copy_complaint(
    room: std::result::Result<usize, Seq<char>>,
    given: usize,
) -> Seq<char> {
    match room {
        Ok(room) => misfit_text(room, given),
        Err(text) => text,
    }
}

/// Room for so many bytes.
pub open spec fn room_for(len: usize) -> std::result::Result<usize, Seq<char>> {
    Ok(len)
}

/// `TensorMut::copy_from_slice` on the first of `Interpreter::inputs_mut`: writes the bytes to
/// the tensor where they are as many as it has room for, else gives an error and writes
/// nothing. There must be such a tensor; that it can be had is then known, as nothing was
/// changed since. Nothing is claimed of the output tensors after a write, as one of them may be
/// the same tensor. The native runtime is taken to report dimensions whose product fits in
/// memory, as its C API documents of tensors that it has allocated.
#[verifier::external_body]
fn write_input(interpreter: &mut Interpreter<'static>, bytes: &[u8]) -> (r: std::result::Result<
    std::result::Result<(), Error>,
    Error,
>)
    requires
        writes_inputs(c_api(engine(*old(interpreter)).setup.library)),
        engine(*old(interpreter)).input_sizes matches Ok(sizes) && sizes.len() > 0,
    ensures
        r is Ok,
        r->Ok_0 is Ok <==> engine(*old(interpreter)).input_room == room_for(bytes@.len() as usize),
        r->Ok_0 matches Err(error) ==> tflite_error_text(error) == match engine(
            *old(interpreter),
        ).input_room {
            Ok(room) => misfit_text(room, bytes@.len() as usize),
            Err(text) => text,
        },
        engine(*final(interpreter)) == if engine(*old(interpreter)).input_room == room_for(
            bytes@.len() as usize,
        ) {
            Engine {
                input: bytes@,
                outputs: engine(*final(interpreter)).outputs,
                ..engine(*old(interpreter))
            }
        } else {
            engine(*old(interpreter))
        },
{
    Ok(interpreter.inputs_mut()?[0].copy_from_slice::<u8>(bytes))
}

/// The error of a run, `None` where it succeeded.
pub open spec fn invoke_error(outcome: std::result::Result<(), Error>) -> Option<Error> {
    match outcome {
        Ok(()) => None,
        Err(error) => Some(error),
    }
}

/// `Interpreter::invoke`: runs the model on what was written, or gives an error. What the
/// output tensors then hold depends on the model and the native runtime and is not claimed.
#[verifier::external_body]
fn invoke(interpreter: &mut Interpreter<'static>) -> (r: std::result::Result<(), Error>)
    requires
        c_api(engine(*old(interpreter)).setup.library).interpreter.invoke,
    ensures
        engine(*final(interpreter)).setup == engine(*old(interpreter)).setup,
        engine(*final(interpreter)).model == engine(*old(interpreter)).model,
        engine(*final(interpreter)).input == engine(*old(interpreter)).input,
        engine(*final(interpreter)).runs == engine(*old(interpreter)).runs.push(
            (engine(*old(interpreter)).input, invoke_error(r)),
        ),
{
    interpreter.invoke()
}

/// `Interpreter::outputs` and `Tensor::as_slice` of each, as four-byte elements: what the
/// output tensors hold, or an error. The native runtime is taken to report numbers of tensors
/// that are not negative, and dimensions whose product fits in memory, as its C API documents
/// of tensors that it has allocated.
#[verifier::external_body]
fn read_outputs(interpreter: &Interpreter<'static>) -> (r: std::result::Result<
    Vec<std::result::Result<Vec<u32>, Error>>,
    Error,
>)
    requires
        reads_outputs(c_api(engine(*interpreter).setup.library)),
    ensures
        tensors_or_error(r) == engine(*interpreter).outputs,
{
    let tensors = interpreter.outputs()?;
    Ok(tensors.iter().map(|tensor| tensor.as_slice::<u32>().map(|all| all.to_vec())).collect())
}

/// The error of a failed step: what failed, and the cause.
pub open spec fn is_failure(error: SidecarError, step: Seq<char>, cause: Seq<char>) -> bool {
    error matches SidecarError::Tflite(text) && text@ == step + ": "@ + cause
}

/// Whether an error says that the shared library lacks functions that would be called.
pub open spec fn is_lack(error: SidecarError) -> bool {
    error matches SidecarError::Tflite(text) && text@
        == "library lacks functions of the TensorFlow Lite C API"@
}

/// The error where the shared library lacks functions that would be called.
fn lack() -> (r: SidecarError)
    ensures
        is_lack(r),
{
    SidecarError::Tflite("library lacks functions of the TensorFlow Lite C API".to_owned())
}

/// The step of loading a delegate.
pub open spec fn delegate_step(path: Seq<char>) -> Seq<char> {
    "Delegate::load("@ + path + ") failed"@
}

/// Whether an error is that of building an interpreter for a model with those bytes: a step that
/// failed, or one before which it is seen that the library lacks functions. Only where a
/// delegate is wanted can it be about the delegate.
pub open spec fn is_build_failure(error: SidecarError, setup: Setup, model: Seq<u8>) -> bool {
    let api = c_api(setup.library);
    let with_delegate = setup.delegates.len() > 0;
    if !makes_builders(api) {
        is_lack(error)
    } else {
        ||| exists|cause: Error| #[trigger]
            can_refuse_builder(setup.library, cause) && is_failure(
                error,
                "Interpreter::builder failed"@,
                tflite_error_text(cause),
            )
        ||| !api.setup.set_num_threads && is_lack(error)
        ||| api.setup.set_num_threads && with_delegate && exists|cause: Error| #[trigger]
            can_refuse_delegate(setup.delegates[0], cause) && is_failure(
                error,
                delegate_step(setup.delegates[0]),
                tflite_error_text(cause),
            )
        ||| api.setup.set_num_threads && with_delegate && !api.setup.add_delegate && is_lack(error)
        ||| api.setup.set_num_threads && (with_delegate ==> api.setup.add_delegate)
            && !makes_interpreters(api) && is_lack(error)
        ||| builds(setup) && exists|cause: Error| #[trigger]
            can_refuse_build(setup, model, cause) && is_failure(
                error,
                "Interpreter build failed"@,
                tflite_error_text(cause),
            )
    }
}

/// Whether the library has all functions that building an interpreter with those settings
/// calls.
pub open spec fn builds(setup: Setup) -> bool {
    let api = c_api(setup.library);
    &&& makes_builders(api)
    &&& api.setup.set_num_threads
    &&& setup.delegates.len() > 0 ==> api.setup.add_delegate
    &&& makes_interpreters(api)
}

/// The error of a failed step.
fn failure(step: &str, error: &Error) -> (r: SidecarError)
    ensures
        is_failure(r, step@, tflite_error_text(*error)),
{
    let start: String = joined(step, ": ");
    SidecarError::Tflite(joined(start.as_str(), debug_text(error).as_str()))
}

/// What an interpreter is to be made with: the delegate is used where it is enabled and has a
/// path.
pub open spec fn wanted_setup(
    library: Library,
    delegate_path: Seq<char>,
    use_delegate: bool,
    threads: int,
) -> Setup {
    Setup {
        library,
        threads: Some(threads),
        delegates: if use_delegate && delegate_path.len() > 0 {
            seq![delegate_path]
        } else {
            Seq::empty()
        },
    }
}

/// Builds an interpreter for a model.
fn build_interpreter(
    model: &Model<'static>,
    library: &'static Library,
    delegate_path: &str,
    use_delegate: bool,
    threads: i32,
) -> (r: Result<Interpreter<'static>>)
    ensures
        r matches Ok(interpreter) ==> {
            &&& builds(wanted_setup(*library, delegate_path@, use_delegate, threads as int))
            &&& is_new_engine(
                engine(interpreter),
                wanted_setup(*library, delegate_path@, use_delegate, threads as int),
                model_data(*model),
            )
        },
        r matches Err(error) ==> is_build_failure(
            error,
            wanted_setup(*library, delegate_path@, use_delegate, threads as int),
            model_data(*model),
        ),
{
    let api: CApi = found_functions(library);
    if !(api.setup.options_create && api.setup.options_delete) {
        return Err(lack());
    }
    let mut builder: InterpreterBuilder<'static> = match new_builder(library) {
        Ok(builder) => builder,
        Err(error) => return Err(failure("Interpreter::builder failed", &error)),
    };
    if !api.setup.set_num_threads {
        return Err(lack());
    }
    builder = with_threads(builder, threads);
    if use_delegate && !delegate_path.is_empty() {
        let delegate: Delegate = match load_delegate(delegate_path) {
            Ok(delegate) => delegate,
            Err(error) => {
                let call: String = joined("Delegate::load(", delegate_path);
                let step: String = joined(call.as_str(), ") failed");
                proof {
                    assert(step@ =~= delegate_step(delegate_path@));
                    let setup = wanted_setup(
                        *library,
                        delegate_path@,
                        use_delegate,
                        threads as int,
                    );
                    assert(can_refuse_delegate(setup.delegates[0], error));
                }
                return Err(failure(step.as_str(), &error));
            },
        };
        if !api.setup.add_delegate {
            return Err(lack());
        }
        builder = with_delegate(builder, delegate);
        proof {
            assert(builder_setup(builder) =~= wanted_setup(
                *library,
                delegate_path@,
                use_delegate,
                threads as int,
            ));
        }
    }
    if !(api.interpreter.create && api.interpreter.delete && api.interpreter.allocate_tensors) {
        return Err(lack());
    }
    match build(builder, model) {
        Ok(interpreter) => Ok(interpreter),
        Err(error) => Err(failure("Interpreter build failed", &error)),
    }
}

/// Whether the first four of the output tensors can be read.
pub open spec fn ssd_outputs_readable(
    outputs: std::result::Result<Seq<std::result::Result<Seq<u32>, Seq<char>>>, Seq<char>>,
) -> bool {
    outputs matches Ok(tensors) && tensors.len() >= 4 && tensors[0] is Ok && tensors[1] is Ok
        && tensors[2] is Ok && tensors[3] is Ok
}

/// The detection buffer for output tensors that can be read.
pub open spec fn ssd_detections(
    outputs: std::result::Result<Seq<std::result::Result<Seq<u32>, Seq<char>>>, Seq<char>>,
) -> Seq<u8> {
    let tensors = outputs->Ok_0;
    detection_bytes(tensors[0]->Ok_0, tensors[1]->Ok_0, tensors[2]->Ok_0, tensors[3]->Ok_0)
}

/// What is wrong with output tensors that cannot be read.
pub open spec fn ssd_complaint(
    outputs: std::result::Result<Seq<std::result::Result<Seq<u32>, Seq<char>>>, Seq<char>>,
) -> Seq<char> {
    match outputs {
        Err(cause) => "outputs() failed"@ + ": "@ + cause,
        Ok(tensors) => if tensors.len() < 4 {
            "Expected 4 SSD output tensors, got "@ + decimal(tensors.len())
        } else if tensors[0] is Err {
            "boxes tensor read failed"@ + ": "@ + tensors[0]->Err_0
        } else if tensors[1] is Err {
            "class_ids tensor read failed"@ + ": "@ + tensors[1]->Err_0
        } else if tensors[2] is Err {
            "scores tensor read failed"@ + ": "@ + tensors[2]->Err_0
        } else {
            "count tensor read failed"@ + ": "@ + tensors[3]->Err_0
        },
    }
}

/// Turns the four output tensors of an SSD model into the detection buffer.
fn post_process_ssd(interpreter: &Interpreter<'static>) -> (r: Result<Vec<u8>>)
    requires
        reads_outputs(c_api(engine(*interpreter).setup.library)),
    ensures
        match r {
            Ok(buffer) => ssd_outputs_readable(engine(*interpreter).outputs) && buffer@
                == ssd_detections(engine(*interpreter).outputs) && buffer@.len()
                == EXPECTED_OUTPUT_BYTES,
            Err(error) => !ssd_outputs_readable(engine(*interpreter).outputs) && (
            error matches SidecarError::Tflite(text) && text@ == ssd_complaint(
                engine(*interpreter).outputs,
            )),
        },
{
    let tensors: Vec<std::result::Result<Vec<u32>, Error>> = match read_outputs(interpreter) {
        Ok(tensors) => tensors,
        Err(error) => return Err(failure("outputs() failed", &error)),
    };
    if tensors.len() < 4 {
        return Err(
            SidecarError::Tflite(
                joined(
                    "Expected 4 SSD output tensors, got ",
                    decimal_text(tensors.len() as u64).as_str(),
                ),
            ),
        );
    }
    let boxes: &Vec<u32> = match &tensors[0] {
        Ok(elements) => elements,
        Err(error) => return Err(failure("boxes tensor read failed", error)),
    };
    let class_ids: &Vec<u32> = match &tensors[1] {
        Ok(elements) => elements,
        Err(error) => return Err(failure("class_ids tensor read failed", error)),
    };
    let scores: &Vec<u32> = match &tensors[2] {
        Ok(elements) => elements,
        Err(error) => return Err(failure("scores tensor read failed", error)),
    };
    let count: &Vec<u32> = match &tensors[3] {
        Ok(elements) => elements,
        Err(error) => return Err(failure("count tensor read failed", error)),
    };
    Ok(assemble_detections(boxes, class_ids, scores, count))
}

/// The error where a model has no input tensor.
pub open spec fn no_input_complaint() -> Seq<char> {
    "model has no input tensor"@
}

/// The error where the input has another size than the tensor.
pub open spec fn size_complaint(expected: usize, got: nat) -> Seq<char> {
    "Input size mismatch: tensor expects "@ + decimal(expected as nat) + " bytes, got "@ + decimal(
        got,
    )
}

/// Whether input of that length fits into the first input tensor.
pub fn check_input_size(expected: usize, got: usize) -> (r: Result<()>)
    ensures
        r is Ok <==> expected == got,
        r matches Err(error) ==> (error matches SidecarError::Tflite(text) && text@
            == size_complaint(expected, got as nat)),
        r matches Err(error) ==> (error matches SidecarError::Tflite(text) && text@
            == "Input size mismatch: tensor expects "@ + decimal(expected as nat) + " bytes, got "@
            + decimal(got as nat)),
{
    if expected == got {
        return Ok(());
    }
    let mut text: String = "Input size mismatch: tensor expects ".to_owned();
    text.append(decimal_text(expected as u64).as_str());
    text.append(" bytes, got ");
    text.append(decimal_text(got as u64).as_str());
    Err(SidecarError::Tflite(text))
}

/// The size of the first input tensor.
fn first_input_size(interpreter: &mut Interpreter<'static>) -> (r: Result<usize>)
    requires
        sizes_inputs(c_api(engine(*old(interpreter)).setup.library)),
    ensures
        engine(*final(interpreter)) == engine(*old(interpreter)),
        match engine(*old(interpreter)).input_sizes {
            Ok(sizes) if sizes.len() > 0 => r matches Ok(size) && size == sizes[0],
            _ => r matches Err(error) && is_input_failure(
                error,
                engine(*old(interpreter)).input_sizes,
            ),
        },
{
    match input_sizes(interpreter) {
        Ok(sizes) => {
            if sizes.len() == 0 {
                return Err(SidecarError::Tflite("model has no input tensor".to_owned()));
            }
            Ok(sizes[0])
        },
        Err(error) => Err(failure("inputs_mut() failed", &error)),
    }
}

/// Whether an error says that the first input tensor cannot be had.
pub open spec fn is_input_failure(
    error: SidecarError,
    input_sizes: std::result::Result<Seq<usize>, Seq<char>>,
) -> bool {
    match input_sizes {
        Err(cause) => is_failure(error, "inputs_mut() failed"@, cause),
        Ok(sizes) => sizes.len() == 0 && (error matches SidecarError::Tflite(text) && text@
            == no_input_complaint()),
    }
}

/// Whether an error is that of getting an input into the first input tensor, given the
/// interpreter before and after: the tensor has not as much room, and nothing is changed.
pub open spec fn is_write_failure(
    error: SidecarError,
    before: Engine,
    after: Engine,
    input: Seq<u8>,
    step: Seq<char>,
) -> bool {
    &&& after == before
    &&& if writes_inputs(c_api(before.setup.library)) {
        &&& before.input_room != room_for(input.len() as usize)
        &&& is_failure(error, step, copy_complaint(before.input_room, input.len() as usize))
    } else {
        is_lack(error)
    }
}

/// Whether an error says that the model did not run on an input that was written, given the
/// interpreter before and after.
pub open spec fn is_invoke_failure(
    error: SidecarError,
    before: Engine,
    after: Engine,
    input: Seq<u8>,
    step: Seq<char>,
) -> bool {
    &&& is_written(before, input)
    &&& if c_api(before.setup.library).interpreter.invoke {
        exists|cause: Error|
            {
                &&& after.runs == before.runs.push((input, Some(cause)))
                &&& #[trigger] is_failure(error, step, tflite_error_text(cause))
            }
    } else {
        &&& after.runs == before.runs
        &&& after.input == input
        &&& is_lack(error)
    }
}

/// Whether an input can be written to the first input tensor.
pub open spec fn is_written(before: Engine, input: Seq<u8>) -> bool {
    writes_inputs(c_api(before.setup.library)) && before.input_room == room_for(
        input.len() as usize,
    )
}

/// Whether an error is that of an inference on an input, given the interpreter before and
/// after: the first input tensor cannot be had or has another size, and nothing is changed; or
/// it could not be written, or the model did not run, or it ran and its output tensors cannot
/// be read.
pub open spec fn is_inference_failure(
    error: SidecarError,
    before: Engine,
    after: Engine,
    input: Seq<u8>,
) -> bool {
    if !sizes_inputs(c_api(before.setup.library)) {
        after == before && is_lack(error)
    } else {
        match before.input_sizes {
            Ok(sizes) if sizes.len() > 0 => if sizes[0] != input.len() {
                &&& after == before
                &&& error matches SidecarError::Tflite(text)
                &&& text@ == size_complaint(sizes[0], input.len())
            } else {
                ||| is_write_failure(
                    error,
                    before,
                    after,
                    input,
                    "copy_from_slice on input tensor failed"@,
                )
                ||| is_invoke_failure(
                    error,
                    before,
                    after,
                    input,
                    "interpreter.invoke() failed"@,
                )
                ||| {
                    &&& is_written(before, input)
                    &&& c_api(before.setup.library).interpreter.invoke
                    &&& after.runs == before.runs.push((input, None))
                    &&& if reads_outputs(c_api(before.setup.library)) {
                        &&& !ssd_outputs_readable(after.outputs)
                        &&& error matches SidecarError::Tflite(text)
                        &&& text@ == ssd_complaint(after.outputs)
                    } else {
                        is_lack(error)
                    }
                }
            },
            _ => after == before && is_input_failure(error, before.input_sizes),
        }
    }
}

/// The input of a warmup of that size.
pub open spec fn zero_input(size: usize) -> Seq<u8> {
    Seq::new(size as nat, |i: int| 0u8)
}

/// Whether an error is that of a warmup, given the interpreter before and after.
pub open spec fn is_warmup_failure(error: SidecarError, before: Engine, after: Engine) -> bool {
    if !sizes_inputs(c_api(before.setup.library)) {
        after == before && is_lack(error)
    } else {
        match before.input_sizes {
            Ok(sizes) if sizes.len() > 0 => {
                ||| is_write_failure(
                    error,
                    before,
                    after,
                    zero_input(sizes[0]),
                    "copy_from_slice on warmup input failed"@,
                )
                ||| is_invoke_failure(
                    error,
                    before,
                    after,
                    zero_input(sizes[0]),
                    "warmup invoke failed"@,
                )
            },
            _ => after == before && is_input_failure(error, before.input_sizes),
        }
    }
}

/// What an inference on an input did, given the interpreter before and after: where it
/// succeeds, the input has filled the first input tensor, the model ran once on it, and the
/// result is made of the output tensors.
pub open spec fn inference_done(
    before: Engine,
    after: Engine,
    input: Seq<u8>,
    outcome: std::result::Result<Seq<u8>, SidecarError>,
) -> bool {
    &&& after.setup == before.setup
    &&& after.model == before.model
    &&& match outcome {
        Ok(buffer) => {
            &&& before.input_sizes matches Ok(sizes)
            &&& sizes.len() > 0
            &&& sizes[0] == input.len()
            &&& is_written(before, input)
            &&& c_api(before.setup.library).interpreter.invoke
            &&& after.runs == before.runs.push((input, None))
            &&& reads_outputs(c_api(before.setup.library))
            &&& ssd_outputs_readable(after.outputs)
            &&& buffer == ssd_detections(after.outputs)
            &&& buffer.len() == EXPECTED_OUTPUT_BYTES
        },
        Err(error) => is_inference_failure(error, before, after, input),
    }
}

/// What a warmup did, given the interpreter before and after: where it succeeds, the model ran
/// once on zeros.
pub open spec fn warmup_done(
    before: Engine,
    after: Engine,
    error: Option<SidecarError>,
) -> bool {
    &&& after.setup == before.setup
    &&& after.model == before.model
    &&& match error {
        None => {
            &&& before.input_sizes matches Ok(sizes)
            &&& sizes.len() > 0
            &&& is_written(before, zero_input(sizes[0]))
            &&& c_api(before.setup.library).interpreter.invoke
            &&& after.runs == before.runs.push((zero_input(sizes[0]), None))
        },
        Some(error) => is_warmup_failure(error, before, after),
    }
}

/// Writes the input, runs the model, and turns its output tensors into the detection buffer.
fn run_inference(
    library: &'static Library,
    interpreter: &mut Interpreter<'static>,
    input_bytes: &[u8],
) -> (r: Result<Vec<u8>>)
    requires
        engine(*old(interpreter)).setup.library == *library,
    ensures
        inference_done(
            engine(*old(interpreter)),
            engine(*final(interpreter)),
            input_bytes@,
            outcome_of(r),
        ),
{
    let api: CApi = found_functions(library);
    if !(api.interpreter.input_count && api.interpreter.input && api.tensor.byte_size) {
        return Err(lack());
    }
    let size: usize = match first_input_size(interpreter) {
        Ok(size) => size,
        Err(error) => return Err(error),
    };
    match check_input_size(size, input_bytes.len()) {
        Ok(()) => {},
        Err(error) => return Err(error),
    }
    if !(api.tensor.name && api.tensor.num_dims && api.tensor.dim && api.tensor.data) {
        return Err(lack());
    }
    match write_input(interpreter, input_bytes) {
        Ok(Ok(())) => {},
        Ok(Err(error)) => return Err(failure("copy_from_slice on input tensor failed", &error)),
        Err(error) => return Err(failure("inputs_mut() failed", &error)),
    }
    if !api.interpreter.invoke {
        return Err(lack());
    }
    let invoked: std::result::Result<(), Error> = invoke(interpreter);
    detections_after(library, interpreter, invoked)
}

/// The result of an inference, given how the run of the model ended.
pub fn detections_after(
    library: &'static Library,
    interpreter: &Interpreter<'static>,
    invoked: std::result::Result<(), Error>,
) -> (r: Result<Vec<u8>>)
    requires
        engine(*interpreter).setup.library == *library,
        reaches_elements(c_api(*library)),
    ensures
        invoked matches Err(cause) ==> (r matches Err(error) && is_failure(
            error,
            "interpreter.invoke() failed"@,
            tflite_error_text(cause),
        )),
        invoked is Ok && !reads_outputs(c_api(*library)) ==> (r matches Err(error) && is_lack(
            error,
        )),
        invoked is Ok && reads_outputs(c_api(*library)) ==> match r {
            Ok(buffer) => {
                &&& ssd_outputs_readable(engine(*interpreter).outputs)
                &&& buffer@ == ssd_detections(engine(*interpreter).outputs)
                &&& buffer@.len() == EXPECTED_OUTPUT_BYTES
            },
            Err(error) => {
                &&& !ssd_outputs_readable(engine(*interpreter).outputs)
                &&& error matches SidecarError::Tflite(text)
                &&& text@ == ssd_complaint(engine(*interpreter).outputs)
            },
        },
{
    match invoked {
        Ok(()) => {},
        Err(error) => return Err(failure("interpreter.invoke() failed", &error)),
    }
    let api: CApi = found_functions(library);
    if !(api.interpreter.output_count && api.interpreter.output) {
        return Err(lack());
    }
    post_process_ssd(interpreter)
}

/// Runs the model once on zeros.
fn warm_up_interpreter(library: &'static Library, interpreter: &mut Interpreter<'static>) -> (r:
    Result<()>)
    requires
        engine(*old(interpreter)).setup.library == *library,
    ensures
        warmup_done(engine(*old(interpreter)), engine(*final(interpreter)), error_of(r)),
{
    let api: CApi = found_functions(library);
    if !(api.interpreter.input_count && api.interpreter.input && api.tensor.byte_size) {
        return Err(lack());
    }
    let size: usize = match first_input_size(interpreter) {
        Ok(size) => size,
        Err(error) => return Err(error),
    };
    let zeros: Vec<u8> = vec![0u8; size];
    proof {
        assert(zeros@ =~= zero_input(size));
    }
    if !(api.tensor.name && api.tensor.num_dims && api.tensor.dim && api.tensor.data) {
        return Err(lack());
    }
    match write_input(interpreter, &zeros) {
        Ok(Ok(())) => {},
        Ok(Err(error)) => return Err(failure("copy_from_slice on warmup input failed", &error)),
        Err(error) => return Err(failure("inputs_mut() (warmup set) failed", &error)),
    }
    if !api.interpreter.invoke {
        return Err(lack());
    }
    match invoke(interpreter) {
        Ok(()) => Ok(()),
        Err(error) => Err(failure("warmup invoke failed", &error)),
    }
}

/// Whether an error is that of loading a model from those bytes with those settings.
pub open spec fn is_load_failure(error: SidecarError, setup: Setup, data: Seq<u8>) -> bool {
    if makes_models(c_api(setup.library)) {
        ||| exists|cause: Error| #[trigger]
            can_refuse_model(setup.library, data, cause) && is_failure(
                error,
                "Model validation failed"@,
                tflite_error_text(cause),
            )
        ||| is_build_failure(error, setup, data)
    } else {
        is_lack(error)
    }
}

/// A model and an interpreter for it. The interpreter stands first, so that it is dropped
/// first.
pub struct Loaded {
    pub interpreter: Interpreter<'static>,
    pub model: Model<'static>,
}

/// Manages the life of a model and runs inference.
///
/// The model, delegate and interpreter are built once when the model is loaded, and used for
/// all inference requests.
pub struct TfliteManager {
    library: &'static Library,
    model_bytes: Option<Vec<u8>>,
    model_name: Option<String>,
    // Stands before the model, so that it is dropped first.
    interpreter: Option<Interpreter<'static>>,
    model: Option<Model<'static>>,
    delegate_path: String,
    use_delegate: bool,
    threads: i32,
    calls: Ghost<Seq<BackendCall>>,
}

/// Whether the settings of a manager are what they were.
pub open spec fn settings_stay(before: TfliteManager, after: TfliteManager) -> bool {
    &&& after.library() == before.library()
    &&& after.delegate() == before.delegate()
    &&& after.uses_delegate() == before.uses_delegate()
    &&& after.thread_count() == before.thread_count()
}

/// What a load of a model did to a manager: where it succeeds, the interpreter was made from
/// the bytes as it was wanted; where it fails, the interpreter stays.
pub open spec fn load_done(
    before: TfliteManager,
    after: TfliteManager,
    data: Seq<u8>,
    error: Option<SidecarError>,
) -> bool {
    &&& settings_stay(before, after)
    &&& match error {
        None => {
            &&& makes_models(c_api(before.wanted_setup().library))
            &&& builds(before.wanted_setup())
            &&& after.engine() matches Some(engine)
            &&& is_new_engine(engine, before.wanted_setup(), data)
        },
        Some(error) => {
            &&& is_load_failure(error, before.wanted_setup(), data)
            &&& after.engine() == before.engine()
        },
    }
}

/// What an inference did to a manager.
pub open spec fn run_done(
    before: TfliteManager,
    after: TfliteManager,
    input: Seq<u8>,
    outcome: std::result::Result<Seq<u8>, SidecarError>,
) -> bool {
    &&& settings_stay(before, after)
    &&& match before.engine() {
        None => after.engine() is None && outcome matches Err(SidecarError::ModelNotLoaded),
        Some(engine) => after.engine() matches Some(used) && inference_done(
            engine,
            used,
            input,
            outcome,
        ),
    }
}

/// What a warmup did to a manager.
pub open spec fn warmup_run_done(
    before: TfliteManager,
    after: TfliteManager,
    error: Option<SidecarError>,
) -> bool {
    &&& settings_stay(before, after)
    &&& match before.engine() {
        None => after.engine() is None && error matches Some(SidecarError::ModelNotLoaded),
        Some(engine) => after.engine() matches Some(used) && warmup_done(engine, used, error),
    }
}

/// What a call did to a manager.
pub open spec fn call_done(
    before: TfliteManager,
    after: TfliteManager,
    call: BackendCall,
) -> bool {
    match call {
        BackendCall::Load { data, name, error } => load_done(before, after, data, error),
        BackendCall::Run { input, outcome } => run_done(before, after, input, outcome),
        BackendCall::Warmup { error } => warmup_run_done(before, after, error),
    }
}

impl TfliteManager {
    /// An interpreter was built from the model bytes that are kept, and its model is kept too.
    #[verifier::type_invariant]
    spec fn interpreter_is_for_the_model(self) -> bool {
        self.interpreter matches Some(interpreter) ==> {
            &&& engine(interpreter).setup.library == *self.library
            &&& self.model_bytes matches Some(bytes)
            &&& engine(interpreter).model == bytes@
            &&& self.model matches Some(model)
            &&& model_data(model) == bytes@
        }
    }

    /// The interpreter of the model that is loaded.
    pub closed spec fn engine(self) -> Option<Engine> {
        match self.interpreter {
            Some(interpreter) => Some(engine(interpreter)),
            None => None,
        }
    }

    /// The bytes of the model that is loaded.
    pub open spec fn loaded_model(self) -> Option<Seq<u8>> {
        match self.engine() {
            Some(engine) => Some(engine.model),
            None => None,
        }
    }

    /// The name of the model that is loaded, if known.
    pub closed spec fn loaded_name(self) -> Option<Seq<char>> {
        opt_text(self.model_name)
    }

    /// The shared library that models are loaded with.
    pub closed spec fn library(self) -> Library {
        *self.library
    }

    /// The path of the delegate.
    pub closed spec fn delegate(self) -> Seq<char> {
        self.delegate_path@
    }

    /// Whether the delegate is used.
    pub closed spec fn uses_delegate(self) -> bool {
        self.use_delegate
    }

    /// The number of CPU threads.
    pub closed spec fn thread_count(self) -> int {
        self.threads as int
    }

    /// What the next interpreter is to be made with.
    pub open spec fn wanted_setup(self) -> Setup {
        wanted_setup(self.library(), self.delegate(), self.uses_delegate(), self.thread_count())
    }

    /// What the manager was asked to do so far, the first call first.
    pub closed spec fn recorded_calls(self) -> Seq<BackendCall> {
        self.calls@
    }

    /// The manager as a backend.
    pub open spec fn as_backend(self) -> BackendState {
        BackendState {
            model: self.loaded_model(),
            name: self.loaded_name(),
            calls: self.recorded_calls(),
        }
    }

    /// A manager without a model that uses no delegate.
    pub fn new(library: &'static Library, threads: i32) -> (r: Self)
        ensures
            r.engine() is None,
            r.as_backend() == (BackendState { model: None, name: None, calls: Seq::empty() }),
            r.library() == *library,
            r.delegate() == Seq::<char>::empty(),
            !r.uses_delegate(),
            r.thread_count() == threads,
    {
        TfliteManager {
            library,
            model_bytes: None,
            model_name: None,
            interpreter: None,
            model: None,
            delegate_path: String::new(),
            use_delegate: false,
            threads,
            calls: Ghost(Seq::empty()),
        }
    }

    /// Sets the path of the delegate and whether it is used.
    pub fn set_delegate(&mut self, path: &str, enabled: bool)
        ensures
            final(self).delegate() == path@,
            final(self).uses_delegate() == enabled,
            final(self).library() == old(self).library(),
            final(self).thread_count() == old(self).thread_count(),
            final(self).engine() == old(self).engine(),
            final(self).as_backend() == old(self).as_backend(),
    {
        proof {
            use_type_invariant(&*self);
        }
        self.delegate_path = path.to_owned();
        self.use_delegate = enabled;
    }

    /// Whether a model is loaded and ready for inference.
    pub fn is_ready(&self) -> (r: bool)
        ensures
            r == (self.loaded_model() is Some),
            r == (self.engine() is Some),
    {
        self.interpreter.is_some()
    }

    /// The name of the loaded model, if known.
    pub fn model_name(&self) -> (r: Option<&str>)
        ensures
            opt_str(r) == self.loaded_name(),
    {
        match &self.model_name {
            Some(name) => Some(name.as_str()),
            None => None,
        }
    }

    /// Whether a model is ready and has that name.
    pub fn is_model_ready(&self, model_name: &str) -> (r: bool)
        ensures
            r == (self.loaded_model() is Some && self.loaded_name() == Some(model_name@)),
    {
        match self.model_name() {
            Some(name) => self.is_ready() && same_text(name, model_name),
            None => false,
        }
    }

    /// Loads a model from its bytes and builds its interpreter. Where that fails, everything
    /// stays as it was.
    pub fn cache_model(&mut self, data: Vec<u8>, model_name: Option<String>) -> (r: Result<()>)
        ensures
            load_done(*old(self), *final(self), data@, error_of(r)),
            final(self).as_backend() == old(self).as_backend().after_load(
                data@,
                opt_text(model_name),
                error_of(r),
            ),
    {
        let loaded: Result<Loaded> = self.load(&data);
        self.install(data, model_name, loaded)
    }

    /// Makes a model of the bytes, and an interpreter for it as it is wanted.
    fn load(&self, data: &Vec<u8>) -> (r: Result<Loaded>)
        ensures
            r matches Ok(loaded) ==> {
                &&& makes_models(c_api(self.library()))
                &&& builds(self.wanted_setup())
                &&& model_data(loaded.model) == data@
                &&& is_new_engine(engine(loaded.interpreter), self.wanted_setup(), data@)
            },
            r matches Err(error) ==> is_load_failure(error, self.wanted_setup(), data@),
    {
        let api: CApi = found_functions(self.library);
        if !(api.setup.model_create && api.setup.model_delete) {
            return Err(lack());
        }
        let copy: Vec<u8> = data.clone();
        let model: Model<'static> = match model_from_bytes(self.library, copy) {
            Ok(model) => model,
            Err(error) => return Err(failure("Model validation failed", &error)),
        };
        match build_interpreter(
            &model,
            self.library,
            self.delegate_path.as_str(),
            self.use_delegate,
            self.threads,
        ) {
            Ok(interpreter) => Ok(Loaded { interpreter, model }),
            Err(error) => Err(error),
        }
    }

    /// Takes over a model that was loaded from the bytes; where it could not be loaded, gives
    /// the error and leaves everything as it was.
    pub fn install(
        &mut self,
        data: Vec<u8>,
        model_name: Option<String>,
        loaded: Result<Loaded>,
    ) -> (r: Result<()>)
        requires
            loaded matches Ok(loaded) ==> engine(loaded.interpreter).setup.library == old(
                self,
            ).library() && engine(loaded.interpreter).model == data@ && model_data(loaded.model)
                == data@,
        ensures
            error_of(r) == error_of(loaded),
            final(self).engine() == match loaded {
                Ok(loaded) => Some(engine(loaded.interpreter)),
                Err(_) => old(self).engine(),
            },
            final(self).as_backend() == old(self).as_backend().after_load(
                data@,
                opt_text(model_name),
                error_of(loaded),
            ),
            settings_stay(*old(self), *final(self)),
    {
        proof {
            use_type_invariant(&*self);
        }
        self.calls = Ghost(
            self.calls@.push(
                BackendCall::Load {
                    data: data@,
                    name: opt_text(model_name),
                    error: error_of(loaded),
                },
            ),
        );
        match loaded {
            Ok(loaded) => {
                self.interpreter = None;
                self.model_bytes = Some(data);
                self.model_name = model_name;
                self.model = Some(loaded.model);
                self.interpreter = Some(loaded.interpreter);
                Ok(())
            },
            Err(error) => Err(error),
        }
    }

    /// Runs inference on prepared bytes; gives a detection buffer.
    pub fn run(&mut self, input_bytes: &[u8]) -> (r: Result<Vec<u8>>)
        ensures
            run_done(*old(self), *final(self), input_bytes@, outcome_of(r)),
            final(self).as_backend() == old(self).as_backend().with_call(
                BackendCall::Run { input: input_bytes@, outcome: outcome_of(r) },
            ),
    {
        proof {
            use_type_invariant(&*self);
        }
        let mut slot: Option<Interpreter<'static>> = None;
        std::mem::swap(&mut slot, &mut self.interpreter);
        let r: Result<Vec<u8>> = match slot {
            None => Err(SidecarError::ModelNotLoaded),
            Some(interpreter) => {
                let mut interpreter: Interpreter<'static> = interpreter;
                let output: Result<Vec<u8>> = run_inference(
                    self.library,
                    &mut interpreter,
                    input_bytes,
                );
                self.interpreter = Some(interpreter);
                output
            },
        };
        self.calls = Ghost(
            self.calls@.push(BackendCall::Run { input: input_bytes@, outcome: outcome_of(r) }),
        );
        r
    }

    /// Runs inference once on zeros, so that the delegate compiles its graph.
    pub fn warmup(&mut self) -> (r: Result<()>)
        ensures
            warmup_run_done(*old(self), *final(self), error_of(r)),
            final(self).as_backend() == old(self).as_backend().with_call(
                BackendCall::Warmup { error: error_of(r) },
            ),
    {
        proof {
            use_type_invariant(&*self);
        }
        let mut slot: Option<Interpreter<'static>> = None;
        std::mem::swap(&mut slot, &mut self.interpreter);
        let r: Result<()> = match slot {
            None => Err(SidecarError::ModelNotLoaded),
            Some(interpreter) => {
                let mut interpreter: Interpreter<'static> = interpreter;
                let outcome: Result<()> = warm_up_interpreter(self.library, &mut interpreter);
                self.interpreter = Some(interpreter);
                outcome
            },
        };
        self.calls = Ghost(self.calls@.push(BackendCall::Warmup { error: error_of(r) }));
        r
    }
}

impl DetectorBackend for TfliteManager {
    open spec fn state(&self) -> BackendState {
        self.as_backend()
    }

    open spec fn leads_to(&self, after: &Self, call: BackendCall) -> bool {
        call_done(*self, *after, call)
    }

    fn is_ready(&self) -> bool {
        TfliteManager::is_ready(self)
    }

    fn model_name(&self) -> Option<&str> {
        TfliteManager::model_name(self)
    }

    fn is_model_ready(&self, model_name: &str) -> bool {
        TfliteManager::is_model_ready(self, model_name)
    }

    fn cache_model(&mut self, data: Vec<u8>, model_name: Option<String>) -> Result<()> {
        TfliteManager::cache_model(self, data, model_name)
    }

    fn run(&mut self, input_bytes: &[u8]) -> Result<Vec<u8>> {
        TfliteManager::run(self, input_bytes)
    }

    fn warmup(&mut self) -> Result<()> {
        TfliteManager::warmup(self)
    }
}

/// What a successful inference reports, by the positions of the output tensors after it: in
/// row `row` element `row` of tensor 1 in column 0, element `row` of tensor 2 in column 1, and
/// elements `4 * row` to `4 * row + 3` of tensor 0 in columns 2 to 5, each as four bytes from
/// the lowest on, zero beyond the end of a tensor; but zeros where that detection or one before
/// it may not be reported by its score in tensor 2 and the number in tensor 3.
pub proof fn lemma_run_reports_the_tensors(
    before: Engine,
    after: Engine,
    input: Seq<u8>,
    buffer: Seq<u8>,
    row: int,
    column: int,
)
    requires
        inference_done(before, after, input, Ok(buffer)),
        0 <= row < 20,
        0 <= column < 6,
    ensures
        buffer.len() == 480,
        ({
            let tensors = after.outputs->Ok_0;
            &&& after.outputs is Ok
            &&& tensors.len() >= 4
            &&& tensors[0] is Ok
            &&& tensors[1] is Ok
            &&& tensors[2] is Ok
            &&& tensors[3] is Ok
        }),
        ({
            let at = 24 * row + 4 * column;
            buffer[at] + 0x100 * buffer[at + 1] + 0x1_0000 * buffer[at + 2] + 0x100_0000
                * buffer[at + 3]
        }) == ({
            let tensors = after.outputs->Ok_0;
            if !(forall|j: int|
                0 <= j <= row ==> #[trigger] may_be_reported(
                    tensors[2]->Ok_0,
                    tensors[3]->Ok_0,
                    j,
                )) {
                0
            } else if column == 0 {
                if row < (tensors[1]->Ok_0).len() {
                    (tensors[1]->Ok_0)[row] as int
                } else {
                    0
                }
            } else if column == 1 {
                if row < (tensors[2]->Ok_0).len() {
                    (tensors[2]->Ok_0)[row] as int
                } else {
                    0
                }
            } else {
                if 4 * row + column - 2 < (tensors[0]->Ok_0).len() {
                    (tensors[0]->Ok_0)[4 * row + column - 2] as int
                } else {
                    0
                }
            }
        }),
{
    let tensors = after.outputs->Ok_0;
    lemma_buffer_shows_the_tensors(
        tensors[0]->Ok_0,
        tensors[1]->Ok_0,
        tensors[2]->Ok_0,
        tensors[3]->Ok_0,
        row,
        column,
    );
}

/// An inference succeeds exactly where the model ran on the input without an error and its
/// first four output tensors can be read.
pub proof fn lemma_inference_succeeds(
    before: Engine,
    after: Engine,
    input: Seq<u8>,
    outcome: std::result::Result<Seq<u8>, SidecarError>,
)
    requires
        inference_done(before, after, input, outcome),
    ensures
        outcome is Ok ==> after.runs.len() == before.runs.len() + 1 && after.runs.drop_last()
            == before.runs && after.runs.last().0 == input && after.runs.last().1 is None,
        ({
            let api = c_api(before.setup.library);
            let tensors = after.outputs->Ok_0;
            &&& after.runs == before.runs.push((input, None))
            &&& api.interpreter.output_count && api.interpreter.output
            &&& api.tensor.name && api.tensor.num_dims && api.tensor.dim && api.tensor.byte_size
                && api.tensor.data
            &&& after.outputs is Ok
            &&& tensors.len() >= 4
            &&& tensors[0] is Ok
            &&& tensors[1] is Ok
            &&& tensors[2] is Ok
            &&& tensors[3] is Ok
        }) ==> outcome is Ok,
        after.runs.len() > before.runs.len() && after.runs.last().1 is Some ==> outcome is Err,
        after.model == before.model,
        after.setup == before.setup,
{
    if outcome is Ok {
        assert(after.runs.drop_last() =~= before.runs);
    }
    if after.runs == before.runs.push((input, None)) {
        assert(after.runs.last().1 is None);
        assert(after.runs.len() == before.runs.len() + 1);
        if is_invoke_failure(
            outcome->Err_0,
            before,
            after,
            input,
            "interpreter.invoke() failed"@,
        ) && c_api(before.setup.library).interpreter.invoke {
            let cause = choose|cause: Error|
                {
                    &&& after.runs == before.runs.push((input, Some(cause)))
                    &&& #[trigger] is_failure(
                        outcome->Err_0,
                        "interpreter.invoke() failed"@,
                        tflite_error_text(cause),
                    )
                };
            assert(after.runs.last().1 == Some(cause));
        }
    }
}

/// Input of another size than the first input tensor is refused, and nothing is done with it.
pub proof fn lemma_other_sizes_are_refused(
    before: Engine,
    after: Engine,
    input: Seq<u8>,
    outcome: std::result::Result<Seq<u8>, SidecarError>,
)
    requires
        inference_done(before, after, input, outcome),
        before.input_sizes matches Ok(sizes) && sizes.len() > 0 && sizes[0] != input.len(),
    ensures
        outcome is Err,
        after == before,
{
}

/// A model that was loaded is used as the settings say: with exactly the delegate at the path
/// that is set, where it is enabled and the path is not empty, and with none otherwise; with
/// the number of threads that is set; and from the bytes that were given. A load that fails
/// leaves the interpreter. Neither changes the settings.
pub proof fn lemma_load_follows_the_settings(
    before: TfliteManager,
    after: TfliteManager,
    data: Seq<u8>,
    error: Option<SidecarError>,
)
    requires
        load_done(before, after, data, error),
    ensures
        error is None ==> {
            let setup = after.engine()->0.setup;
            &&& after.engine() is Some
            &&& after.engine()->0.model == data
            &&& after.engine()->0.runs.len() == 0
            &&& setup.library == before.library()
            &&& setup.threads is Some
            &&& setup.threads->0 == before.thread_count()
            &&& before.uses_delegate() && before.delegate().len() > 0 ==> setup.delegates.len() == 1
                && setup.delegates[0] == before.delegate()
            &&& !before.uses_delegate() || before.delegate().len() == 0 ==> setup.delegates.len()
                == 0
        },
        error is Some ==> after.engine() == before.engine(),
        after.library() == before.library(),
        after.delegate() == before.delegate(),
        after.uses_delegate() == before.uses_delegate(),
        after.thread_count() == before.thread_count(),
{
}

/// A warmup that succeeds has run the model once, without an error, on as many zeros as the
/// first input tensor has bytes.
pub proof fn lemma_warmup_runs_on_zeros(before: Engine, after: Engine)
    requires
        warmup_done(before, after, None),
    ensures
        before.input_sizes is Ok,
        after.runs.len() == before.runs.len() + 1,
        after.runs.drop_last() == before.runs,
        after.runs.last().1 is None,
        after.runs.last().0.len() == (before.input_sizes->Ok_0)[0],
        forall|i: int|
            0 <= i < after.runs.last().0.len() ==> #[trigger] after.runs.last().0[i] == 0,
{
    assert(after.runs.drop_last() =~= before.runs);
}

/// Without a model there is neither an inference nor a warmup: the error says so.
pub proof fn lemma_nothing_runs_without_a_model(
    before: TfliteManager,
    after: TfliteManager,
    input: Seq<u8>,
    outcome: std::result::Result<Seq<u8>, SidecarError>,
    error: Option<SidecarError>,
)
    requires
        before.engine() is None,
    ensures
        run_done(before, after, input, outcome) ==> outcome is Err
            && outcome->Err_0 is ModelNotLoaded && after.engine() is None,
        warmup_run_done(before, after, error) ==> error is Some && error->0 is ModelNotLoaded
            && after.engine() is None,
{
}

/// The complaint about output tensors names the first of the four that cannot be read, by what
/// it holds.
pub proof fn lemma_complaint_names_the_tensor(
    tensors: Seq<std::result::Result<Seq<u32>, Seq<char>>>,
)
    requires
        tensors.len() >= 4,
    ensures
        tensors[0] is Err ==> ssd_complaint(Ok(tensors)) == "boxes tensor read failed: "@
            + tensors[0]->Err_0,
        tensors[0] is Ok && tensors[1] is Err ==> ssd_complaint(Ok(tensors))
            == "class_ids tensor read failed: "@ + tensors[1]->Err_0,
        tensors[0] is Ok && tensors[1] is Ok && tensors[2] is Err ==> ssd_complaint(Ok(tensors))
            == "scores tensor read failed: "@ + tensors[2]->Err_0,
        tensors[0] is Ok && tensors[1] is Ok && tensors[2] is Ok && tensors[3] is Err
            ==> ssd_complaint(Ok(tensors)) == "count tensor read failed: "@ + tensors[3]->Err_0,
{
    reveal_strlit(": ");
    reveal_strlit("boxes tensor read failed");
    reveal_strlit("boxes tensor read failed: ");
    reveal_strlit("class_ids tensor read failed");
    reveal_strlit("class_ids tensor read failed: ");
    reveal_strlit("scores tensor read failed");
    reveal_strlit("scores tensor read failed: ");
    reveal_strlit("count tensor read failed");
    reveal_strlit("count tensor read failed: ");
    assert("boxes tensor read failed: "@ =~= "boxes tensor read failed"@ + ": "@);
    assert("class_ids tensor read failed: "@ =~= "class_ids tensor read failed"@ + ": "@);
    assert("scores tensor read failed: "@ =~= "scores tensor read failed"@ + ": "@);
    assert("count tensor read failed: "@ =~= "count tensor read failed"@ + ": "@);
}

/// A model runs, with whatever outcome, wherever the library has the functions for it, the input
/// is as long as the first input tensor, and that has the room; and an inference that fails
/// after the model ran says that the run failed, with its cause, or why the output tensors
/// cannot be read.
pub proof fn lemma_a_fitting_input_runs(
    before: Engine,
    after: Engine,
    input: Seq<u8>,
    outcome: std::result::Result<Seq<u8>, SidecarError>,
)
    requires
        inference_done(before, after, input, outcome),
        ({
            let api = c_api(before.setup.library);
            &&& api.interpreter.input_count && api.interpreter.input && api.interpreter.invoke
            &&& api.interpreter.output_count && api.interpreter.output
            &&& api.tensor.name && api.tensor.num_dims && api.tensor.dim && api.tensor.byte_size
                && api.tensor.data
        }),
        before.input_sizes matches Ok(sizes) && sizes.len() > 0 && sizes[0] == input.len(),
        before.input_room matches Ok(room) && room == input.len(),
    ensures
        after.runs.len() == before.runs.len() + 1,
        after.runs.drop_last() == before.runs,
        after.runs.last().0 == input,
        after.runs.last().1 matches Some(cause) ==> {
            &&& outcome matches Err(SidecarError::Tflite(text))
            &&& text@ == "interpreter.invoke() failed: "@ + tflite_error_text(cause)
        },
        after.runs.last().1 is None && after.outputs is Err ==> {
            &&& outcome matches Err(SidecarError::Tflite(text))
            &&& text@ == "outputs() failed: "@ + after.outputs->Err_0
        },
        after.runs.last().1 is None && after.outputs is Ok && (after.outputs->Ok_0).len() < 4 ==> {
            &&& outcome matches Err(SidecarError::Tflite(text))
            &&& text@ == "Expected 4 SSD output tensors, got "@ + decimal(
                (after.outputs->Ok_0).len(),
            )
        },
{
    reveal_strlit(": ");
    reveal_strlit("interpreter.invoke() failed");
    reveal_strlit("interpreter.invoke() failed: ");
    reveal_strlit("outputs() failed");
    reveal_strlit("outputs() failed: ");
    assert("interpreter.invoke() failed: "@ =~= "interpreter.invoke() failed"@ + ": "@);
    assert("outputs() failed: "@ =~= "outputs() failed"@ + ": "@);
    assert(room_for(input.len() as usize) == before.input_room);
    if outcome is Err && is_invoke_failure(
        outcome->Err_0,
        before,
        after,
        input,
        "interpreter.invoke() failed"@,
    ) {
        let cause = choose|cause: Error|
            {
                &&& after.runs == before.runs.push((input, Some(cause)))
                &&& #[trigger] is_failure(
                    outcome->Err_0,
                    "interpreter.invoke() failed"@,
                    tflite_error_text(cause),
                )
            };
        assert(after.runs.last() == (input, Some(cause)));
        assert(after.runs.drop_last() =~= before.runs);
    } else {
        assert(after.runs.last() == (input, None::<Error>));
        assert(after.runs.drop_last() =~= before.runs);
    }
}

/// What is said of an input that cannot be written: that the input tensors cannot be had, that
/// there is none, that the input has another size, or why it was not taken.
pub proof fn lemma_what_is_said_of_an_input(
    before: Engine,
    after: Engine,
    input: Seq<u8>,
    outcome: std::result::Result<Seq<u8>, SidecarError>,
)
    requires
        inference_done(before, after, input, outcome),
        ({
            let api = c_api(before.setup.library);
            &&& api.interpreter.input_count && api.interpreter.input
            &&& api.tensor.name && api.tensor.num_dims && api.tensor.dim && api.tensor.byte_size
                && api.tensor.data
        }),
    ensures
        before.input_sizes is Err ==> {
            &&& after == before
            &&& outcome matches Err(SidecarError::Tflite(text))
            &&& text@ == "inputs_mut() failed: "@ + before.input_sizes->Err_0
        },
        before.input_sizes is Ok && (before.input_sizes->Ok_0).len() == 0 ==> {
            &&& after == before
            &&& outcome matches Err(SidecarError::Tflite(text))
            &&& text@ == "model has no input tensor"@
        },
        before.input_sizes is Ok && (before.input_sizes->Ok_0).len() > 0 && (
        before.input_sizes->Ok_0)[0] != input.len() ==> {
            &&& after == before
            &&& outcome matches Err(SidecarError::Tflite(text))
            &&& text@ == "Input size mismatch: tensor expects "@ + decimal(
                (before.input_sizes->Ok_0)[0] as nat,
            ) + " bytes, got "@ + decimal(input.len())
        },
        before.input_sizes is Ok && (before.input_sizes->Ok_0).len() > 0 && (
        before.input_sizes->Ok_0)[0] == input.len() && before.input_room is Err ==> {
            &&& after == before
            &&& outcome matches Err(SidecarError::Tflite(text))
            &&& text@ == "copy_from_slice on input tensor failed: "@ + before.input_room->Err_0
        },
        before.input_sizes is Ok && (before.input_sizes->Ok_0).len() > 0 && (
        before.input_sizes->Ok_0)[0] == input.len() && before.input_room is Ok
            && before.input_room->Ok_0 != input.len() ==> {
            &&& after == before
            &&& outcome matches Err(SidecarError::Tflite(text))
            &&& text@ == "copy_from_slice on input tensor failed: "@ + misfit_text(
                before.input_room->Ok_0,
                input.len() as usize,
            )
        },
{
    reveal_strlit(": ");
    reveal_strlit("inputs_mut() failed");
    reveal_strlit("inputs_mut() failed: ");
    reveal_strlit("copy_from_slice on input tensor failed");
    reveal_strlit("copy_from_slice on input tensor failed: ");
    assert("inputs_mut() failed: "@ =~= "inputs_mut() failed"@ + ": "@);
    assert("copy_from_slice on input tensor failed: "@
        =~= "copy_from_slice on input tensor failed"@ + ": "@);
}

/// An inference that needs a function that the library lacks says so, before it would call it:
/// one for the sizes of the input tensors or for their elements before anything is done, the one
/// that runs the model before it has run, and one for the output tensors after it has.
pub proof fn lemma_inference_needs_the_functions(
    before: Engine,
    after: Engine,
    input: Seq<u8>,
    outcome: std::result::Result<Seq<u8>, SidecarError>,
)
    requires
        inference_done(before, after, input, outcome),
        before.input_sizes matches Ok(sizes) && sizes.len() > 0 && sizes[0] == input.len(),
        before.input_room matches Ok(room) && room == input.len(),
    ensures
        ({
            let api = c_api(before.setup.library);
            !api.interpreter.input_count || !api.interpreter.input || !api.tensor.byte_size
                || !api.tensor.name || !api.tensor.num_dims || !api.tensor.dim || !api.tensor.data
        }) ==> {
            &&& after == before
            &&& outcome matches Err(SidecarError::Tflite(text))
            &&& text@ == "library lacks functions of the TensorFlow Lite C API"@
        },
        !c_api(before.setup.library).interpreter.invoke ==> {
            &&& after.runs == before.runs
            &&& outcome matches Err(SidecarError::Tflite(text))
            &&& text@ == "library lacks functions of the TensorFlow Lite C API"@
        },
        ({
            let api = c_api(before.setup.library);
            !api.interpreter.output_count || !api.interpreter.output
        }) && after.runs == before.runs.push((input, None)) ==> {
            &&& outcome matches Err(SidecarError::Tflite(text))
            &&& text@ == "library lacks functions of the TensorFlow Lite C API"@
        },
{
    assert(room_for(input.len() as usize) == before.input_room);
    if after.runs == before.runs.push((input, None)) {
        assert(after.runs.last().1 is None);
        assert(after.runs.len() == before.runs.len() + 1);
        if outcome is Err && is_invoke_failure(
            outcome->Err_0,
            before,
            after,
            input,
            "interpreter.invoke() failed"@,
        ) && c_api(before.setup.library).interpreter.invoke {
            let cause = choose|cause: Error|
                {
                    &&& after.runs == before.runs.push((input, Some(cause)))
                    &&& #[trigger] is_failure(
                        outcome->Err_0,
                        "interpreter.invoke() failed"@,
                        tflite_error_text(cause),
                    )
                };
            assert(after.runs.last().1 == Some(cause));
        }
    }
}

/// A load with a library that lacks a function for it fails, and says so where models cannot be
/// made with it. A delegate that is used needs the function that adds it.
pub proof fn lemma_load_needs_the_functions(
    before: TfliteManager,
    after: TfliteManager,
    data: Seq<u8>,
    error: Option<SidecarError>,
)
    requires
        load_done(before, after, data, error),
    ensures
        ({
            let api = c_api(before.library());
            !api.setup.model_create || !api.setup.model_delete || !api.setup.options_create
                || !api.setup.options_delete || !api.setup.set_num_threads
                || !api.interpreter.create || !api.interpreter.delete
                || !api.interpreter.allocate_tensors
        }) ==> error is Some,
        ({
            let api = c_api(before.library());
            !api.setup.model_create || !api.setup.model_delete
        }) ==> {
            &&& error matches Some(SidecarError::Tflite(text))
            &&& text@ == "library lacks functions of the TensorFlow Lite C API"@
        },
        before.uses_delegate() && before.delegate().len() > 0 && !c_api(
            before.library(),
        ).setup.add_delegate ==> error is Some,
{
}

/// What is said of a load that fails: which of the steps failed, with the cause; or that the
/// library lacks functions, which is said only where it lacks one that a load with the settings
/// needs. Only of a manager that uses a delegate is it said that the delegate could not be
/// loaded, and from which path.
pub proof fn lemma_what_is_said_of_a_load(
    before: TfliteManager,
    after: TfliteManager,
    data: Seq<u8>,
    error: SidecarError,
)
    requires
        load_done(before, after, data, Some(error)),
    ensures
        error is Tflite,
        ({
            let text = error->Tflite_0@;
            let api = c_api(before.library());
            let lacks = !api.setup.model_create || !api.setup.model_delete
                || !api.setup.options_create || !api.setup.options_delete
                || !api.setup.set_num_threads || !api.interpreter.create || !api.interpreter.delete
                || !api.interpreter.allocate_tensors || (before.uses_delegate()
                && before.delegate().len() > 0 && !api.setup.add_delegate);
            ||| lacks && text == "library lacks functions of the TensorFlow Lite C API"@
            ||| exists|cause: Error| #[trigger]
                can_refuse_model(before.library(), data, cause) && text
                    == "Model validation failed: "@ + tflite_error_text(cause)
            ||| exists|cause: Error| #[trigger]
                can_refuse_builder(before.library(), cause) && text
                    == "Interpreter::builder failed: "@ + tflite_error_text(cause)
            ||| before.uses_delegate() && before.delegate().len() > 0 && exists|cause: Error|
                #[trigger]
                can_refuse_delegate(before.delegate(), cause) && text == "Delegate::load("@
                    + before.delegate() + ") failed: "@ + tflite_error_text(cause)
            ||| exists|setup: Setup, cause: Error|
                {
                    &&& #[trigger] can_refuse_build(setup, data, cause)
                    &&& setup.library == before.library()
                    &&& setup.threads == Some(before.thread_count())
                    &&& text == "Interpreter build failed: "@ + tflite_error_text(cause)
                }
        }),
{
    reveal_strlit(": ");
    reveal_strlit(") failed");
    reveal_strlit(") failed: ");
    reveal_strlit("Model validation failed");
    reveal_strlit("Model validation failed: ");
    reveal_strlit("Interpreter::builder failed");
    reveal_strlit("Interpreter::builder failed: ");
    reveal_strlit("Interpreter build failed");
    reveal_strlit("Interpreter build failed: ");
    let setup = before.wanted_setup();
    let path = before.delegate();
    assert("Model validation failed: "@ =~= "Model validation failed"@ + ": "@);
    assert("Interpreter::builder failed: "@ =~= "Interpreter::builder failed"@ + ": "@);
    assert("Interpreter build failed: "@ =~= "Interpreter build failed"@ + ": "@);
    assert(forall|cause: Error|
        "Delegate::load("@ + path + ") failed: "@ + #[trigger] tflite_error_text(cause)
            =~= delegate_step(path) + ": "@ + tflite_error_text(cause));
    if exists|cause: Error| #[trigger]
        can_refuse_build(setup, data, cause) && is_failure(
            error,
            "Interpreter build failed"@,
            tflite_error_text(cause),
        ) {
        let cause = choose|cause: Error| #[trigger]
            can_refuse_build(setup, data, cause) && is_failure(
                error,
                "Interpreter build failed"@,
                tflite_error_text(cause),
            );
        assert(can_refuse_build(setup, data, cause) && setup.library == before.library());
    }
}

/// A manager is ready exactly where it has an interpreter, and its model is then the one that
/// the interpreter was made for.
pub proof fn lemma_ready_with_an_interpreter(manager: TfliteManager)
    ensures
        manager.state().model is Some <==> manager.engine() is Some,
        manager.engine() is Some ==> manager.state().model->0 == manager.engine()->0.model,
        manager.state().name == manager.loaded_name(),
{
}

/// What is said of a warmup that fails where the library has the functions for it.
pub proof fn lemma_what_is_said_of_a_warmup(
    before: Engine,
    after: Engine,
    error: Option<SidecarError>,
)
    requires
        warmup_done(before, after, error),
        ({
            let api = c_api(before.setup.library);
            &&& api.interpreter.input_count && api.interpreter.input && api.interpreter.invoke
            &&& api.tensor.name && api.tensor.num_dims && api.tensor.dim && api.tensor.byte_size
                && api.tensor.data
        }),
    ensures
        before.input_sizes is Err ==> {
            &&& after == before
            &&& error matches Some(SidecarError::Tflite(text))
            &&& text@ == "inputs_mut() failed: "@ + before.input_sizes->Err_0
        },
        before.input_sizes is Ok && (before.input_sizes->Ok_0).len() == 0 ==> {
            &&& after == before
            &&& error matches Some(SidecarError::Tflite(text))
            &&& text@ == "model has no input tensor"@
        },
        before.input_sizes is Ok && (before.input_sizes->Ok_0).len() > 0 && before.input_room is Err
            ==> {
            &&& after == before
            &&& error matches Some(SidecarError::Tflite(text))
            &&& text@ == "copy_from_slice on warmup input failed: "@ + before.input_room->Err_0
        },
        before.input_sizes is Ok && (before.input_sizes->Ok_0).len() > 0 && (
        before.input_room matches Ok(room) && room == (before.input_sizes->Ok_0)[0]) ==> {
            &&& after.runs.len() == before.runs.len() + 1
            &&& after.runs.last().0.len() == (before.input_sizes->Ok_0)[0]
            &&& error is None <==> after.runs.last().1 is None
            &&& after.runs.last().1 matches Some(cause) ==> (error matches Some(
                SidecarError::Tflite(text),
            ) && text@ == "warmup invoke failed: "@ + tflite_error_text(cause))
        },
{
    reveal_strlit(": ");
    reveal_strlit("inputs_mut() failed");
    reveal_strlit("inputs_mut() failed: ");
    reveal_strlit("copy_from_slice on warmup input failed");
    reveal_strlit("copy_from_slice on warmup input failed: ");
    reveal_strlit("warmup invoke failed");
    reveal_strlit("warmup invoke failed: ");
    assert("inputs_mut() failed: "@ =~= "inputs_mut() failed"@ + ": "@);
    assert("copy_from_slice on warmup input failed: "@
        =~= "copy_from_slice on warmup input failed"@ + ": "@);
    assert("warmup invoke failed: "@ =~= "warmup invoke failed"@ + ": "@);
    if before.input_sizes is Ok {
        if (before.input_sizes->Ok_0).len() > 0 {
            let zeros = zero_input((before.input_sizes->Ok_0)[0]);
            assert(zeros.len() == (before.input_sizes->Ok_0)[0]);
            if error is Some && is_invoke_failure(
                error->0,
                before,
                after,
                zeros,
                "warmup invoke failed"@,
            ) {
                let cause = choose|cause: Error|
                    {
                        &&& after.runs == before.runs.push((zeros, Some(cause)))
                        &&& #[trigger] is_failure(
                            error->0,
                            "warmup invoke failed"@,
                            tflite_error_text(cause),
                        )
                    };
                assert(after.runs.last() == (zeros, Some(cause)));
            } else if error is None {
                assert(after.runs.last() == (zeros, None::<Error>));
            }
        }
    }
}

/// No call of a backend changes what a manager was set up with; and neither an inference nor a
/// warmup changes the model of its interpreter, or what that was made with.
pub proof fn lemma_calls_keep_the_settings(
    before: TfliteManager,
    after: TfliteManager,
    call: BackendCall,
)
    requires
        before.leads_to(&after, call),
    ensures
        after.library() == before.library(),
        after.delegate() == before.delegate(),
        after.uses_delegate() == before.uses_delegate(),
        after.thread_count() == before.thread_count(),
        !(call is Load) ==> (after.engine() is Some <==> before.engine() is Some),
        !(call is Load) && before.engine() is Some ==> {
            &&& after.engine()->0.setup == before.engine()->0.setup
            &&& after.engine()->0.model == before.engine()->0.model
        },
{
}

} // verus!
