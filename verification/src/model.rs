//! The model that a decoding engine drives: one of two implementations,
//! chosen when the weights are loaded. What the model computes is its own,
//! and differs with the machine that computes it; this module tells the two
//! implementations apart, says on which models and inputs a call is made,
//! and says what a call leaves as it was.
//!
//! A model is held as it was loaded. It is made by `Model::load_normal` and
//! `Model::load_quantized` and by nothing else, and no part of it can be
//! assigned to: the configuration that it holds is the one that its layers
//! were made for.

use candle_core::Tensor;
use candle_transformers::models::whisper::model;
use candle_transformers::models::whisper::quantized_model;
use candle_transformers::models::whisper::Config;
use vstd::prelude::*;

verus! {

/// A tensor of `candle_core`. Its shape and values are not modelled.
#[verifier::external_type_specification]
#[verifier::external_body]
pub struct ExTensor(candle_core::Tensor);

/// The error of `candle_core`.
#[verifier::external_type_specification]
#[verifier::external_body]
pub struct ExCandleError(candle_core::Error);

/// The element type of a tensor of `candle_core`.
#[verifier::external_type_specification]
#[verifier::external_body]
pub struct ExDType(candle_core::DType);

/// The device of `candle_core` that holds a tensor.
#[verifier::external_type_specification]
#[verifier::external_body]
pub struct ExDevice(candle_core::Device);

/// The quantized weights of `candle_transformers`, as read from a file.
#[verifier::external_type_specification]
#[verifier::external_body]
pub struct ExQuantizedWeights(candle_transformers::quantized_var_builder::VarBuilder);

/// The weights of a full-precision model: a variable builder of
/// `candle_nn` over one of its own stores.
#[verifier::external_body]
pub struct Weights {
    inner: candle_nn::VarBuilder<'static>,
}

/// A full-precision model of `candle_transformers`, as `Whisper::load` made
/// it.
#[verifier::external_body]
pub struct NormalModel {
    inner: model::Whisper,
}

/// A quantized model of `candle_transformers`, as `Whisper::load` made it.
#[verifier::external_body]
pub struct QuantizedModel {
    inner: quantized_model::Whisper,
}

/// A failure of the model.
#[derive(Debug)]
pub struct ModelError {
    pub cause: candle_core::Error,
}

/// A speech model, in full precision or quantized.
pub enum Model {
    Normal(NormalModel),
    Quantized(QuantizedModel),
}

/// The dimensions of a tensor: the size of each of its axes.
pub uninterp spec fn dimensions(t: Tensor) -> Seq<usize>;

/// Whether no axis is empty, so that the tensor holds at least one value.
pub open spec fn filled(dims: Seq<usize>) -> bool {
    forall|i: int| 0 <= i < dims.len() ==> #[trigger] dims[i] > 0
}

/// `Tensor::dims`: the size of the tensor on each axis.
#[verifier::external_body]
fn tensor_dims(t: &Tensor) -> (dims: Vec<usize>)
    ensures
        dims@ == dimensions(*t),
{
    t.dims().to_vec()
}

/// The size of the tensor on each axis.
pub fn dims(t: &Tensor) -> (dims: Vec<usize>)
    ensures
        dims@ == dimensions(*t),
{
    tensor_dims(t)
}

/// Whether no axis of the tensor is empty.
pub fn is_filled(t: &Tensor) -> (b: bool)
    ensures
        b == filled(dimensions(*t)),
{
    let dims = tensor_dims(t);
    let mut i: usize = 0;
    while i < dims.len()
        invariant
            i <= dims.len(),
            dims@ == dimensions(*t),
            forall|j: int| 0 <= j < i ==> #[trigger] dims@[j] > 0,
        decreases dims.len() - i,
    {
        if dims[i] == 0 {
            assert(!(dimensions(*t)[i as int] > 0));
            return false;
        }
        i = i + 1;
    }
    true
}

/// The configuration that a full-precision model holds: its field `config`,
/// which is the configuration that the model was loaded with.
pub uninterp spec fn normal_configuration(m: NormalModel) -> Config;

/// The configuration that a quantized model holds: its field `config`,
/// which is the configuration that the model was loaded with.
pub uninterp spec fn quantized_configuration(m: QuantizedModel) -> Config;

/// The field `config` of the full-precision model.
#[verifier::external_body]
fn normal_config(m: &NormalModel) -> (config: &Config)
    ensures
        *config == normal_configuration(*m),
{
    &m.inner.config
}

/// The field `config` of the quantized model.
#[verifier::external_body]
fn quantized_config(m: &QuantizedModel) -> (config: &Config)
    ensures
        *config == quantized_configuration(*m),
{
    &m.inner.config
}

/// `AudioEncoder::forward` of the full-precision model: the encoder's
/// output for the spectrogram `x`, or the error of the tensor operation
/// that failed. Nothing is claimed of the output. The call is made on the
/// field `encoder` alone, so the field `config` is as it was. The attention
/// layers divide by the number of heads that the model was loaded with, the
/// normalisations cut their input into rows of the model's width, and the
/// convolutions count down from the number of frames: a model without
/// heads or without width and an input with an empty axis are left out.
#[verifier::external_body]
fn normal_encoder_forward(m: &mut NormalModel, x: &Tensor, flush: bool) -> (r: Result<
    Tensor,
    candle_core::Error,
>)
    requires
        normal_configuration(*old(m)).d_model > 0,
        normal_configuration(*old(m)).encoder_attention_heads > 0,
        filled(dimensions(*x)),
    ensures
        normal_configuration(*final(m)) == normal_configuration(*old(m)),
{
    m.inner.encoder.forward(x, flush)
}

/// `AudioEncoder::forward` of the quantized model; as above.
#[verifier::external_body]
fn quantized_encoder_forward(m: &mut QuantizedModel, x: &Tensor, flush: bool) -> (r:
    Result<Tensor, candle_core::Error>)
    requires
        quantized_configuration(*old(m)).d_model > 0,
        quantized_configuration(*old(m)).encoder_attention_heads > 0,
        filled(dimensions(*x)),
    ensures
        quantized_configuration(*final(m)) == quantized_configuration(*old(m)),
{
    m.inner.encoder.forward(x, flush)
}

/// `TextDecoder::forward` of the full-precision model: the decoder's hidden
/// states for the tokens `x` over the encoder's output `xa`, or the error
/// of the tensor operation that failed. Nothing is claimed of the output.
/// The call is made on the field `decoder` alone, so the field `config` is
/// as it was. The attention layers divide by the number of heads that the
/// model was loaded with, and they and the normalisations cut their input
/// into rows as long as the model is wide and as the inputs are: a model
/// without heads or without width is left out, and so are inputs with an
/// empty axis.
#[verifier::external_body]
fn normal_decoder_forward(m: &mut NormalModel, x: &Tensor, xa: &Tensor, flush: bool) -> (r:
    Result<Tensor, candle_core::Error>)
    requires
        normal_configuration(*old(m)).d_model > 0,
        normal_configuration(*old(m)).decoder_attention_heads > 0,
        filled(dimensions(*x)),
        filled(dimensions(*xa)),
    ensures
        normal_configuration(*final(m)) == normal_configuration(*old(m)),
{
    m.inner.decoder.forward(x, xa, flush)
}

/// `TextDecoder::forward` of the quantized model; as above.
#[verifier::external_body]
fn quantized_decoder_forward(
    m: &mut QuantizedModel,
    x: &Tensor,
    xa: &Tensor,
    flush: bool,
) -> (r: Result<Tensor, candle_core::Error>)
    requires
        quantized_configuration(*old(m)).d_model > 0,
        quantized_configuration(*old(m)).decoder_attention_heads > 0,
        filled(dimensions(*x)),
        filled(dimensions(*xa)),
    ensures
        quantized_configuration(*final(m)) == quantized_configuration(*old(m)),
{
    m.inner.decoder.forward(x, xa, flush)
}

/// `TextDecoder::final_linear` of the full-precision model: the logits for
/// the hidden states `x`, or the error of the tensor operation that failed.
/// Nothing is claimed of the output.
#[verifier::external_body]
fn normal_final_linear(m: &NormalModel, x: &Tensor) -> (r: Result<Tensor, candle_core::Error>) {
    m.inner.decoder.final_linear(x)
}

/// `TextDecoder::final_linear` of the quantized model; as above.
#[verifier::external_body]
fn quantized_final_linear(m: &QuantizedModel, x: &Tensor) -> (r: Result<
    Tensor,
    candle_core::Error,
>) {
    m.inner.decoder.final_linear(x)
}

/// Whether a tensor of `a` by `b` by `c` values can be held: its size in
/// bytes, at eight bytes to a value, is one that the machine can count.
pub open spec fn holds(a: usize, b: usize, c: usize) -> bool {
    a * b * c * 8 <= isize::MAX
}

/// Whether a model can be loaded for `config`: the width is two at least,
/// for the positions of the encoder are told apart by half the width less
/// one; and none of the tensors that the model is made of is larger than
/// the machine can count.
pub open spec fn loadable(config: Config) -> bool {
    &&& config.d_model >= 2
    &&& holds(config.num_mel_bins, config.d_model, 3)
    &&& holds(config.d_model, config.d_model, 4)
    &&& holds(config.max_source_positions, config.d_model, 1)
    &&& holds(config.max_target_positions, config.d_model, 1)
    &&& holds(config.max_target_positions, config.max_target_positions, 1)
    &&& holds(config.vocab_size, config.d_model, 1)
}

/// Whether a tensor of `a` by `b` by `c` values can be held.
pub fn can_hold(a: usize, b: usize, c: usize) -> (r: bool)
    ensures
        r == holds(a, b, c),
{
    if a == 0 || b == 0 || c == 0 {
        assert(a * b * c * 8 == 0) by (nonlinear_arith)
            requires
                a == 0 || b == 0 || c == 0,
        ;
        return true;
    }
    let limit: u128 = isize::MAX as u128;
    assert(a * b <= 0xFFFF_FFFF_FFFF_FFFF * 0xFFFF_FFFF_FFFF_FFFF) by (nonlinear_arith)
        requires
            a <= 0xFFFF_FFFF_FFFF_FFFF,
            b <= 0xFFFF_FFFF_FFFF_FFFF,
    ;
    let p: u128 = a as u128 * b as u128;
    if p > limit {
        assert(a * b * c * 8 > isize::MAX) by (nonlinear_arith)
            requires
                a * b > isize::MAX,
                c >= 1,
        ;
        return false;
    }
    assert(p * c <= 0x7FFF_FFFF_FFFF_FFFF * 0xFFFF_FFFF_FFFF_FFFF) by (nonlinear_arith)
        requires
            p <= 0x7FFF_FFFF_FFFF_FFFF,
            c <= 0xFFFF_FFFF_FFFF_FFFF,
    ;
    let q: u128 = p * c as u128;
    if q > limit {
        assert(a * b * c * 8 > isize::MAX) by (nonlinear_arith)
            requires
                a * b * c > isize::MAX,
        ;
        return false;
    }
    q * 8 <= limit
}

/// Whether a model can be loaded for `config`.
pub fn is_loadable(config: &Config) -> (r: bool)
    ensures
        r == loadable(*config),
{
    config.d_model >= 2 && can_hold(config.num_mel_bins, config.d_model, 3) && can_hold(
        config.d_model,
        config.d_model,
        4,
    ) && can_hold(config.max_source_positions, config.d_model, 1) && can_hold(
        config.max_target_positions,
        config.d_model,
        1,
    ) && can_hold(config.max_target_positions, config.max_target_positions, 1) && can_hold(
        config.vocab_size,
        config.d_model,
        1,
    )
}

/// `VarBuilder::zeros`: weights that are zero wherever they are asked for.
#[verifier::external_body]
fn zero_weights(dtype: candle_core::DType, device: &candle_core::Device) -> (weights: Weights) {
    Weights { inner: candle_nn::VarBuilder::zeros(dtype, device) }
}

/// `VarBuilder::from_buffered_safetensors`: the weights that `data` holds in
/// the safetensors format, or the error of reading it.
#[verifier::external_body]
fn safetensors_weights(
    data: Vec<u8>,
    dtype: candle_core::DType,
    device: &candle_core::Device,
) -> (r: Result<Weights, candle_core::Error>) {
    match candle_nn::VarBuilder::from_buffered_safetensors(data, dtype, device) {
        Ok(inner) => Ok(Weights { inner }),
        Err(e) => Err(e),
    }
}

/// `Whisper::load` of the full-precision model: the model that the weights
/// give for `config`, which it then holds, or the error of a weight that
/// is missing or of another shape. A configuration that no model can be
/// loaded for is left out.
#[verifier::external_body]
fn load_normal_model(weights: &Weights, config: Config) -> (r: Result<
    NormalModel,
    candle_core::Error,
>)
    requires
        loadable(config),
    ensures
        r matches Ok(m) ==> normal_configuration(m) == config,
{
    match model::Whisper::load(&weights.inner, config) {
        Ok(inner) => Ok(NormalModel { inner }),
        Err(e) => Err(e),
    }
}

/// `Whisper::load` of the quantized model; as above.
#[verifier::external_body]
fn load_quantized_model(
    weights: &candle_transformers::quantized_var_builder::VarBuilder,
    config: Config,
) -> (r: Result<QuantizedModel, candle_core::Error>)
    requires
        loadable(config),
    ensures
        r matches Ok(m) ==> quantized_configuration(m) == config,
{
    match quantized_model::Whisper::load(weights, config) {
        Ok(inner) => Ok(QuantizedModel { inner }),
        Err(e) => Err(e),
    }
}

impl Weights {
    /// Weights that are zero wherever they are asked for.
    pub fn zeros(dtype: candle_core::DType, device: &candle_core::Device) -> (weights: Weights) {
        zero_weights(dtype, device)
    }

    /// The weights that `data` holds in the safetensors format. Whether
    /// `data` is in that format is the reader's to say.
    pub fn from_safetensors(
        data: Vec<u8>,
        dtype: candle_core::DType,
        device: &candle_core::Device,
    ) -> (r: Result<Weights, ModelError>) {
        match safetensors_weights(data, dtype, device) {
            Ok(weights) => Ok(weights),
            Err(e) => Err(ModelError { cause: e }),
        }
    }
}

/// The model's answer, with its error made the library's own: what each
/// call of a model returns for what its implementation answered.
pub fn owned(r: Result<Tensor, candle_core::Error>) -> (o: Result<Tensor, ModelError>)
    ensures
        o == match r {
            Ok(t) => Ok::<Tensor, ModelError>(t),
            Err(e) => Err(ModelError { cause: e }),
        },
{
    match r {
        Ok(t) => Ok(t),
        Err(e) => Err(ModelError { cause: e }),
    }
}

impl Model {
    /// Loads a full-precision model for `config` from `weights`. A
    /// configuration that no model can be loaded for gives `None`.
    /// Otherwise the model that is loaded is a full-precision one that
    /// holds `config`; whether the weights are those of such a model is the
    /// loader's to say.
    pub fn load_normal(weights: &Weights, config: Config) -> (r: Option<Result<Model, ModelError>>)
        ensures
            r is Some <==> loadable(config),
            r matches Some(Ok(m)) ==> m is Normal && m.configuration() == config,
    {
        if is_loadable(&config) {
            Some(
                match load_normal_model(weights, config) {
                    Ok(m) => Ok(Model::Normal(m)),
                    Err(e) => Err(ModelError { cause: e }),
                },
            )
        } else {
            None
        }
    }

    /// Loads a quantized model for `config` from `weights`. A configuration
    /// that no model can be loaded for gives `None`. Otherwise the model
    /// that is loaded is a quantized one that holds `config`; whether the
    /// weights are those of such a model is the loader's to say.
    pub fn load_quantized(
        weights: &candle_transformers::quantized_var_builder::VarBuilder,
        config: Config,
    ) -> (r: Option<Result<Model, ModelError>>)
        ensures
            r is Some <==> loadable(config),
            r matches Some(Ok(m)) ==> m is Quantized && m.configuration() == config,
    {
        if is_loadable(&config) {
            Some(
                match load_quantized_model(weights, config) {
                    Ok(m) => Ok(Model::Quantized(m)),
                    Err(e) => Err(ModelError { cause: e }),
                },
            )
        } else {
            None
        }
    }

    /// The configuration that the model holds, whichever implementation it
    /// is.
    pub open spec fn configuration(self) -> Config {
        match self {
            Model::Normal(m) => normal_configuration(m),
            Model::Quantized(m) => quantized_configuration(m),
        }
    }

    /// The configuration that the model holds.
    pub fn config(&self) -> (config: &Config)
        ensures
            *config == self.configuration(),
    {
        match self {
            Model::Normal(m) => normal_config(m),
            Model::Quantized(m) => quantized_config(m),
        }
    }

    /// Whether the encoder can be run on `x`: the model has width and
    /// attention heads to share it among, and no axis of `x` is empty.
    pub open spec fn encodes(self, x: Tensor) -> bool {
        &&& self.configuration().d_model > 0
        &&& self.configuration().encoder_attention_heads > 0
        &&& filled(dimensions(x))
    }

    /// Whether the decoder can be run on the tokens `x` over the encoder's
    /// output `xa`: the model has width and attention heads to share it
    /// among, and no axis of `x` or `xa` is empty.
    pub open spec fn decodes(self, x: Tensor, xa: Tensor) -> bool {
        &&& self.configuration().d_model > 0
        &&& self.configuration().decoder_attention_heads > 0
        &&& filled(dimensions(x))
        &&& filled(dimensions(xa))
    }

    /// Runs the encoder of whichever implementation this is. The output is
    /// the implementation's, and so is the choice between output and error.
    /// The model stays the implementation that it was, with the
    /// configuration that it had.
    pub fn encoder_forward(&mut self, x: &Tensor, flush: bool) -> (r: Result<Tensor, ModelError>)
        requires
            old(self).encodes(*x),
        ensures
            *old(self) is Normal <==> *final(self) is Normal,
            final(self).configuration() == old(self).configuration(),
    {
        match self {
            Model::Normal(m) => owned(normal_encoder_forward(m, x, flush)),
            Model::Quantized(m) => owned(quantized_encoder_forward(m, x, flush)),
        }
    }

    /// Runs the encoder where it can be run, as `encoder_forward` does. A
    /// model without width or attention heads, or an input with an empty
    /// axis, gives `None` and leaves the model untouched.
    pub fn checked_encoder_forward(&mut self, x: &Tensor, flush: bool) -> (r: Option<
        Result<Tensor, ModelError>,
    >)
        ensures
            r is Some <==> old(self).encodes(*x),
            r is None ==> *final(self) == *old(self),
            *old(self) is Normal <==> *final(self) is Normal,
            final(self).configuration() == old(self).configuration(),
    {
        let config = self.config();
        if config.d_model > 0 && config.encoder_attention_heads > 0 && is_filled(x) {
            Some(self.encoder_forward(x, flush))
        } else {
            None
        }
    }

    /// Runs the decoder of whichever implementation this is. The output is
    /// the implementation's, and so is the choice between output and error.
    /// The model stays the implementation that it was, with the
    /// configuration that it had.
    pub fn decoder_forward(&mut self, x: &Tensor, xa: &Tensor, flush: bool) -> (r: Result<
        Tensor,
        ModelError,
    >)
        requires
            old(self).decodes(*x, *xa),
        ensures
            *old(self) is Normal <==> *final(self) is Normal,
            final(self).configuration() == old(self).configuration(),
    {
        match self {
            Model::Normal(m) => owned(normal_decoder_forward(m, x, xa, flush)),
            Model::Quantized(m) => owned(quantized_decoder_forward(m, x, xa, flush)),
        }
    }

    /// Runs the decoder where it can be run, as `decoder_forward` does. A
    /// model without width or attention heads, or an input with an empty
    /// axis, gives `None` and leaves the model untouched.
    pub fn checked_decoder_forward(&mut self, x: &Tensor, xa: &Tensor, flush: bool) -> (r: Option<
        Result<Tensor, ModelError>,
    >)
        ensures
            r is Some <==> old(self).decodes(*x, *xa),
            r is None ==> *final(self) == *old(self),
            *old(self) is Normal <==> *final(self) is Normal,
            final(self).configuration() == old(self).configuration(),
    {
        let config = self.config();
        if config.d_model > 0 && config.decoder_attention_heads > 0 && is_filled(x) && is_filled(
            xa,
        ) {
            Some(self.decoder_forward(x, xa, flush))
        } else {
            None
        }
    }

    /// Runs the final projection of whichever implementation this is. The
    /// output is the implementation's, and so is the choice between output
    /// and error.
    pub fn decoder_final_linear(&self, x: &Tensor) -> (r: Result<Tensor, ModelError>) {
        match self {
            Model::Normal(m) => owned(normal_final_linear(m, x)),
            Model::Quantized(m) => owned(quantized_final_linear(m, x)),
        }
    }
}

} // verus!
